//! Display colours: which colour each combination of lit planes is drawn
//! in, for each of the bundled palettes.

use vstd::prelude::*;

verus! {

/// A colour: red, green, blue and alpha bytes.
#[derive(Debug, Clone, Copy, PartialEq, Eq, Structural)]
pub struct Color {
    pub r: u8,
    pub g: u8,
    pub b: u8,
    pub a: u8,
}

/// An opaque colour.
pub open spec fn rgb(r: u8, g: u8, b: u8) -> Color {
    Color { r, g, b, a: 255 }
}

impl Color {
    /// An opaque colour.
    pub fn from_rgb(r: u8, g: u8, b: u8) -> (c: Color)
        ensures
            c == rgb(r, g, b),
    {
        Color { r, g, b, a: 255 }
    }
}

/// The role of a pixel's colour: which planes are lit there.
#[derive(Debug, Clone, Copy, PartialEq, Eq, Structural)]
pub enum ColorLayer {
    /// No plane lit.
    Background,
    /// Only the first plane lit.
    Foreground1,
    /// Only the second plane lit.
    Foreground2,
    /// Both planes lit.
    Blended,
}

/// The role of the pixel whose lit planes form the bits of `layer`
/// (bit 1 for the first plane, bit 0 for the second); other values are
/// background.
pub open spec fn layer_of(layer: u8) -> ColorLayer {
    if layer == 1 {
        ColorLayer::Foreground2
    } else if layer == 2 {
        ColorLayer::Foreground1
    } else if layer == 3 {
        ColorLayer::Blended
    } else {
        ColorLayer::Background
    }
}

impl From<u8> for ColorLayer {
    fn from(layer: u8) -> (c: Self) {
        match layer {
            0 => ColorLayer::Background,
            1 => ColorLayer::Foreground2,
            2 => ColorLayer::Foreground1,
            3 => ColorLayer::Blended,
            _ => ColorLayer::Background,
        }
    }
}

impl vstd::std_specs::convert::FromSpecImpl<u8> for ColorLayer {
    open spec fn obeys_from_spec() -> bool {
        true
    }

    open spec fn from_spec(v: u8) -> ColorLayer {
        layer_of(v)
    }
}

/// The bundled palettes.
#[derive(Debug, Clone, Copy, PartialEq, Eq, Structural)]
pub enum Palette {
    Default,
    Octo,
    LCD,
    Grey,
}

/// The locale key of a palette's name.
pub open spec fn palette_key(p: Palette) -> Seq<char> {
    match p {
        Palette::Default => "default"@,
        Palette::Octo => "octo"@,
        Palette::LCD => "lcd"@,
        Palette::Grey => "grey"@,
    }
}

impl Palette {
    /// Get the locale string key
    pub fn name_key(&self) -> (key: &'static str)
        ensures
            key@ == palette_key(*self),
    {
        match self {
            Palette::Default => "default",
            Palette::Octo => "octo",
            Palette::LCD => "lcd",
            Palette::Grey => "grey",
        }
    }
}

/// The colors used to display the pixels
#[derive(Debug, Clone, Copy, PartialEq, Eq, Structural)]
pub struct PixelColors {
    pub palette: Palette,
    /// Pixel off/background color
    pub background: Color,
    /// Pixel on/plane 1 color
    pub foreground1: Color,
    /// Plane 2 color
    pub foreground2: Color,
    /// Both planes color
    pub blended: Color,
    /// Background flash colours of the buzzer
    pub buzzer: Color,
    pub silence: Color,
}

/// The colours of a palette.
pub open spec fn palette_colors(p: Palette) -> PixelColors {
    let black = rgb(0, 0, 0);
    let white = rgb(255, 255, 255);
    match p {
        Palette::Default => PixelColors {
            palette: Palette::Default,
            background: black,
            foreground1: white,
            foreground2: rgb(0x90, 0xEE, 0x90),
            blended: rgb(0, 0x64, 0),
            buzzer: black,
            silence: black,
        },
        Palette::Octo => PixelColors {
            palette: Palette::Octo,
            background: rgb(153, 102, 0),
            foreground1: rgb(255, 204, 0),
            foreground2: rgb(255, 102, 0),
            blended: rgb(102, 34, 0),
            buzzer: rgb(255, 170, 0),
            silence: black,
        },
        Palette::LCD => PixelColors {
            palette: Palette::LCD,
            background: rgb(249, 255, 179),
            foreground1: rgb(61, 128, 38),
            foreground2: rgb(174, 204, 71),
            blended: rgb(0, 19, 26),
            buzzer: rgb(249, 255, 179),
            silence: black,
        },
        Palette::Grey => PixelColors {
            palette: Palette::Grey,
            background: rgb(170, 170, 170),
            foreground1: black,
            foreground2: white,
            blended: rgb(102, 102, 102),
            buzzer: rgb(102, 102, 102),
            silence: black,
        },
    }
}

/// The colours of a palette.
pub fn palette_pixel_colors(p: Palette) -> (colors: PixelColors)
    ensures
        colors == palette_colors(p),
{
    let black = Color::from_rgb(0, 0, 0);
    let white = Color::from_rgb(255, 255, 255);
    match p {
        Palette::Default => PixelColors {
            palette: Palette::Default,
            background: black,
            foreground1: white,
            foreground2: Color::from_rgb(0x90, 0xEE, 0x90),
            blended: Color::from_rgb(0, 0x64, 0),
            buzzer: black,
            silence: black,
        },
        Palette::Octo => PixelColors {
            palette: Palette::Octo,
            background: Color::from_rgb(153, 102, 0),
            foreground1: Color::from_rgb(255, 204, 0),
            foreground2: Color::from_rgb(255, 102, 0),
            blended: Color::from_rgb(102, 34, 0),
            buzzer: Color::from_rgb(255, 170, 0),
            silence: black,
        },
        Palette::LCD => PixelColors {
            palette: Palette::LCD,
            background: Color::from_rgb(249, 255, 179),
            foreground1: Color::from_rgb(61, 128, 38),
            foreground2: Color::from_rgb(174, 204, 71),
            blended: Color::from_rgb(0, 19, 26),
            buzzer: Color::from_rgb(249, 255, 179),
            silence: black,
        },
        Palette::Grey => PixelColors {
            palette: Palette::Grey,
            background: Color::from_rgb(170, 170, 170),
            foreground1: black,
            foreground2: white,
            blended: Color::from_rgb(102, 102, 102),
            buzzer: Color::from_rgb(102, 102, 102),
            silence: black,
        },
    }
}

/// The bundled palettes' colours, in the order in which they are offered.
pub fn palettes() -> (all: [PixelColors; 4])
    ensures
        all@ == seq![
            palette_colors(Palette::Default),
            palette_colors(Palette::Octo),
            palette_colors(Palette::LCD),
            palette_colors(Palette::Grey),
        ],
{
    let all = [
        palette_pixel_colors(Palette::Default),
        palette_pixel_colors(Palette::Octo),
        palette_pixel_colors(Palette::LCD),
        palette_pixel_colors(Palette::Grey),
    ];
    assert(all@ =~= seq![
        palette_colors(Palette::Default),
        palette_colors(Palette::Octo),
        palette_colors(Palette::LCD),
        palette_colors(Palette::Grey),
    ]);
    all
}

impl Default for PixelColors {
    fn default() -> (colors: Self)
        ensures
            colors == palette_colors(Palette::Default),
    {
        palette_pixel_colors(Palette::Default)
    }
}

impl From<Palette> for PixelColors {
    fn from(palette: Palette) -> (colors: Self) {
        palette_pixel_colors(palette)
    }
}

impl vstd::std_specs::convert::FromSpecImpl<Palette> for PixelColors {
    open spec fn obeys_from_spec() -> bool {
        true
    }

    open spec fn from_spec(v: Palette) -> PixelColors {
        palette_colors(v)
    }
}

/// The colour of a pixel role.
pub open spec fn layer_color(colors: PixelColors, layer: ColorLayer) -> Color {
    match layer {
        ColorLayer::Background => colors.background,
        ColorLayer::Foreground1 => colors.foreground1,
        ColorLayer::Foreground2 => colors.foreground2,
        ColorLayer::Blended => colors.blended,
    }
}

impl PixelColors {
    /// Get the color of a pixel
    pub fn pixel_color(&self, layer: ColorLayer) -> (c: &Color)
        ensures
            *c == layer_color(*self, layer),
    {
        match layer {
            ColorLayer::Background => &self.background,
            ColorLayer::Foreground1 => &self.foreground1,
            ColorLayer::Foreground2 => &self.foreground2,
            ColorLayer::Blended => &self.blended,
        }
    }

    /// The locale key of the palette's name.
    pub fn name_key(&self) -> (key: &'static str)
        ensures
            key@ == palette_key(self.palette),
    {
        self.palette.name_key()
    }

    /// The colour of a pixel with no plane lit.
    pub fn background_color(&self) -> (c: &Color)
        ensures
            *c == self.background,
    {
        &self.background
    }

    /// The colour of a pixel with only the first plane lit.
    pub fn foreground1_color(&self) -> (c: &Color)
        ensures
            *c == self.foreground1,
    {
        &self.foreground1
    }

    /// The colour of a pixel with only the second plane lit.
    pub fn foreground2_color(&self) -> (c: &Color)
        ensures
            *c == self.foreground2,
    {
        &self.foreground2
    }

    /// The colour of a pixel with both planes lit.
    pub fn blended_color(&self) -> (c: &Color)
        ensures
            *c == self.blended,
    {
        &self.blended
    }

    /// Get a mutable reference to the color of an active pixel
    pub fn on_color_mut(&mut self) -> (c: &mut Color)
        ensures
            *c == old(self).foreground1,
            *final(self) == (PixelColors { foreground1: *final(c), ..*old(self) }),
    {
        &mut self.foreground1
    }

    /// Get a reference to the color of an active pixel
    pub fn on_color(&self) -> (c: &Color)
        ensures
            *c == self.foreground1,
    {
        &self.foreground1
    }

    /// Set the color of an active pixel
    pub fn set_on_color(&mut self, color: Color)
        ensures
            *final(self) == (PixelColors { foreground1: color, ..*old(self) }),
    {
        self.foreground1 = color;
    }

    /// Get a mutable reference to the color of an inactive pixel
    pub fn off_color_mut(&mut self) -> (c: &mut Color)
        ensures
            *c == old(self).background,
            *final(self) == (PixelColors { background: *final(c), ..*old(self) }),
    {
        &mut self.background
    }

    /// Get a reference to the color of an inactive pixel
    pub fn off_color(&self) -> (c: &Color)
        ensures
            *c == self.background,
    {
        &self.background
    }

    /// Set the color of an inactive pixel
    pub fn set_off_color(&mut self, color: Color)
        ensures
            *final(self) == (PixelColors { background: color, ..*old(self) }),
    {
        self.background = color;
    }

    /// The six colours: background, foreground 1 and 2, blended, buzzer, silence.
    pub fn all_colors(&self) -> (colors: [Color; 6])
        ensures
            colors@ == seq![self.background, self.foreground1, self.foreground2, self.blended, self.buzzer, self.silence],
    {
        let colors = [self.background, self.foreground1, self.foreground2, self.blended, self.buzzer, self.silence];
        assert(colors@ =~= seq![self.background, self.foreground1, self.foreground2, self.blended, self.buzzer, self.silence]);
        colors
    }
}

} // verus!
