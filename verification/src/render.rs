//! Turning the display planes into colours for a screen.

use vstd::prelude::*;
use crate::display::{res_size, Display};
use crate::palette::{layer_color, layer_of, Color, ColorLayer, PixelColors};

verus! {

/// The colour layer of a pixel from its values on the two planes: the
/// first plane's value shifted into bit 1, the second plane's in bit 0.
pub open spec fn pixel_layer(first: u8, second: u8) -> u8 {
    (first << 1u8) | second
}

/// The colours of a whole display, pixel by pixel, in the palette `colors`.
pub open spec fn frame(planes: Seq<Seq<u8>>, colors: PixelColors, size: nat) -> Seq<Color> {
    Seq::new(size, |i: int| layer_color(colors, layer_of(pixel_layer(planes[0][i], planes[1][i]))))
}

/// The colour of each pixel of the display: pixel `i` takes the colour of
/// the layer that its values on the two planes select.
pub fn frame_colors(display: &Display, colors: &PixelColors) -> (image: Vec<Color>)
    requires
        display@.wf(),
    ensures
        image@ == frame(display@.planes, *colors, res_size(display@.resolution)),
{
    let pairs = display.zipped_iterator();
    let mut image: Vec<Color> = Vec::with_capacity(pairs.len());
    let mut i: usize = 0;
    while i < pairs.len()
        invariant
            i <= pairs@.len(),
            pairs@.len() == res_size(display@.resolution),
            forall|j: int| 0 <= j < pairs@.len() ==> #[trigger] pairs@[j] == (display@.planes[0][j], display@.planes[1][j]),
            image@ == frame(display@.planes, *colors, i as nat),
        decreases pairs@.len() - i,
    {
        let (first, second) = pairs[i];
        let layer: u8 = (first << 1u8) | second;
        let color = *colors.pixel_color(ColorLayer::from(layer));
        image.push(color);
        proof {
            assert(image@ =~= frame(display@.planes, *colors, i as nat + 1));
        }
        i += 1;
    }
    image
}

/// The RGBA bytes of a plane in black and white: a pixel of value 1 is
/// white, any other is black, each opaque.
pub open spec fn rgba8(pixels: Seq<u8>) -> Seq<u8> {
    Seq::new(4 * pixels.len(), |k: int| if pixels[k / 4] == 1 || k % 4 == 3 { 255u8 } else { 0u8 })
}

/// Converts the pixels of a plane into RGBA bytes, four per pixel (see `rgba8`).
pub fn convert_to_rgba8(pixels: &[u8]) -> (bytes: Vec<u8>)
    requires
        4 * pixels@.len() <= usize::MAX,
    ensures
        bytes@ == rgba8(pixels@),
{
    let mut bytes: Vec<u8> = Vec::with_capacity(4 * pixels.len());
    let mut i: usize = 0;
    while i < pixels.len()
        invariant
            i <= pixels@.len(),
            4 * pixels@.len() <= usize::MAX,
            bytes@.len() == 4 * i,
            forall|k: int| 0 <= k < 4 * i ==> #[trigger] bytes@[k] == rgba8(pixels@)[k],
        decreases pixels@.len() - i,
    {
        let level: u8 = if pixels[i] == 1 { 255 } else { 0 };
        bytes.push(level);
        bytes.push(level);
        bytes.push(level);
        bytes.push(255);
        proof {
            assert forall|k: int| 4 * i <= k < 4 * i + 4 implies #[trigger] bytes@[k] == rgba8(pixels@)[k] by {
                assert(k / 4 == i as int);
                assert(k % 4 == k - 4 * i);
            }
        }
        i += 1;
    }
    assert(bytes@ =~= rgba8(pixels@));
    bytes
}

} // verus!
