//! Font data: the small (5 bytes per digit) and large (10 bytes per digit)
//! hexadecimal digit sprites of each system font. The small CHIP-8 font is
//! the default and fallback font; the others were taken from Octo's font file.

use vstd::prelude::*;

verus! {

/// Font name accessors
#[derive(Debug, Clone, Copy, PartialEq, Eq, Structural)]
pub enum FontName {
    CHIP8,
    VIP,
    DREAM6800,
    ETI660,
    FISHIE,
    SUPERCHIP,
}

/// Font sizes
#[derive(Debug, Clone, Copy, PartialEq, Eq, Structural)]
pub enum FontSize {
    Small,
    Large,
}

/// Font data of one system font.
#[derive(Debug)]
pub struct FontData {
    pub name: FontName,
    pub small_data: Vec<u8>,
    pub large_data: Vec<u8>,
}

/// The position of a font in the table of fonts.
pub open spec fn font_number(name: FontName) -> nat {
    match name {
        FontName::CHIP8 => 0,
        FontName::VIP => 1,
        FontName::DREAM6800 => 2,
        FontName::ETI660 => 3,
        FontName::FISHIE => 4,
        FontName::SUPERCHIP => 5,
    }
}

/// The display name of a font.
pub open spec fn font_title(name: FontName) -> Seq<char> {
    match name {
        FontName::CHIP8 => "CHIP-8"@,
        FontName::VIP => "VIP"@,
        FontName::DREAM6800 => "DREAM 6800"@,
        FontName::ETI660 => "ETI 660"@,
        FontName::FISHIE => "FISHIE"@,
        FontName::SUPERCHIP => "SUPER-CHIP"@,
    }
}

impl FontName {
    /// The position of the font in the table of fonts.
    pub fn number(&self) -> (n: usize)
        ensures
            n == font_number(*self),
    {
        match self {
            FontName::CHIP8 => 0,
            FontName::VIP => 1,
            FontName::DREAM6800 => 2,
            FontName::ETI660 => 3,
            FontName::FISHIE => 4,
            FontName::SUPERCHIP => 5,
        }
    }

    /// The display name of the font.
    pub fn title(&self) -> (title: &'static str)
        ensures
            title@ == font_title(*self),
    {
        match self {
            FontName::CHIP8 => "CHIP-8",
            FontName::VIP => "VIP",
            FontName::DREAM6800 => "DREAM 6800",
            FontName::ETI660 => "ETI 660",
            FontName::FISHIE => "FISHIE",
            FontName::SUPERCHIP => "SUPER-CHIP",
        }
    }
}

/// The small digit sprites of a font.
pub open spec fn small_font(name: FontName) -> Seq<u8> {
    match name {
        FontName::CHIP8 => seq![
            0xF0, 0x90, 0x90, 0x90, 0xF0, 0x20, 0x60, 0x20, 0x20, 0x70,
            0xF0, 0x10, 0xF0, 0x80, 0xF0, 0xF0, 0x10, 0xF0, 0x10, 0xF0,
            0x90, 0x90, 0xF0, 0x10, 0x10, 0xF0, 0x80, 0xF0, 0x10, 0xF0,
            0xF0, 0x80, 0xF0, 0x90, 0xF0, 0xF0, 0x10, 0x20, 0x40, 0x40,
            0xF0, 0x90, 0xF0, 0x90, 0xF0, 0xF0, 0x90, 0xF0, 0x10, 0xF0,
            0xF0, 0x90, 0xF0, 0x90, 0x90, 0xE0, 0x90, 0xE0, 0x90, 0xE0,
            0xF0, 0x80, 0x80, 0x80, 0xF0, 0xE0, 0x90, 0x90, 0x90, 0xE0,
            0xF0, 0x80, 0xF0, 0x80, 0xF0, 0xF0, 0x80, 0xF0, 0x80, 0x80,
        ],
        FontName::VIP => seq![
            0xF0, 0x90, 0x90, 0x90, 0xF0, 0x60, 0x20, 0x20, 0x20, 0x70,
            0xF0, 0x10, 0xF0, 0x80, 0xF0, 0xF0, 0x10, 0xF0, 0x10, 0xF0,
            0xA0, 0xA0, 0xF0, 0x20, 0x20, 0xF0, 0x80, 0xF0, 0x10, 0xF0,
            0xF0, 0x80, 0xF0, 0x90, 0xF0, 0xF0, 0x10, 0x10, 0x10, 0x10,
            0xF0, 0x90, 0xF0, 0x90, 0xF0, 0xF0, 0x90, 0xF0, 0x10, 0xF0,
            0xF0, 0x90, 0xF0, 0x90, 0x90, 0xF0, 0x50, 0x70, 0x50, 0xF0,
            0xF0, 0x80, 0x80, 0x80, 0xF0, 0xF0, 0x50, 0x50, 0x50, 0xF0,
            0xF0, 0x80, 0xF0, 0x80, 0xF0, 0xF0, 0x80, 0xF0, 0x80, 0x80,
        ],
        FontName::DREAM6800 => seq![
            0xE0, 0xA0, 0xA0, 0xA0, 0xE0, 0x40, 0x40, 0x40, 0x40, 0x40,
            0xE0, 0x20, 0xE0, 0x80, 0xE0, 0xE0, 0x20, 0xE0, 0x20, 0xE0,
            0x80, 0xA0, 0xA0, 0xE0, 0x20, 0xE0, 0x80, 0xE0, 0x20, 0xE0,
            0xE0, 0x80, 0xE0, 0xA0, 0xE0, 0xE0, 0x20, 0x20, 0x20, 0x20,
            0xE0, 0xA0, 0xE0, 0xA0, 0xE0, 0xE0, 0xA0, 0xE0, 0x20, 0xE0,
            0xE0, 0xA0, 0xE0, 0xA0, 0xA0, 0xC0, 0xA0, 0xE0, 0xA0, 0xC0,
            0xE0, 0x80, 0x80, 0x80, 0xE0, 0xC0, 0xA0, 0xA0, 0xA0, 0xC0,
            0xE0, 0x80, 0xE0, 0x80, 0xE0, 0xE0, 0x80, 0xC0, 0x80, 0x80,
        ],
        FontName::ETI660 => seq![
            0xE0, 0xA0, 0xA0, 0xA0, 0xE0, 0x20, 0x20, 0x20, 0x20, 0x20,
            0xE0, 0x20, 0xE0, 0x80, 0xE0, 0xE0, 0x20, 0xE0, 0x20, 0xE0,
            0xA0, 0xA0, 0xE0, 0x20, 0x20, 0xE0, 0x80, 0xE0, 0x20, 0xE0,
            0xE0, 0x80, 0xE0, 0xA0, 0xE0, 0xE0, 0x20, 0x20, 0x20, 0x20,
            0xE0, 0xA0, 0xE0, 0xA0, 0xE0, 0xE0, 0xA0, 0xE0, 0x20, 0xE0,
            0xE0, 0xA0, 0xE0, 0xA0, 0xA0, 0x80, 0x80, 0xE0, 0xA0, 0xE0,
            0xE0, 0x80, 0x80, 0x80, 0xE0, 0x20, 0x20, 0xE0, 0xA0, 0xE0,
            0xE0, 0x80, 0xE0, 0x80, 0xE0, 0xE0, 0x80, 0xC0, 0x80, 0x80,
        ],
        FontName::FISHIE => seq![
            0x60, 0xA0, 0xA0, 0xA0, 0xC0, 0x40, 0xC0, 0x40, 0x40, 0xE0,
            0xC0, 0x20, 0x40, 0x80, 0xE0, 0xC0, 0x20, 0x40, 0x20, 0xC0,
            0x20, 0xA0, 0xE0, 0x20, 0x20, 0xE0, 0x80, 0xC0, 0x20, 0xC0,
            0x40, 0x80, 0xC0, 0xA0, 0x40, 0xE0, 0x20, 0x60, 0x40, 0x40,
            0x40, 0xA0, 0x40, 0xA0, 0x40, 0x40, 0xA0, 0x60, 0x20, 0x40,
            0x40, 0xA0, 0xE0, 0xA0, 0xA0, 0xC0, 0xA0, 0xC0, 0xA0, 0xC0,
            0x60, 0x80, 0x80, 0x80, 0x60, 0xC0, 0xA0, 0xA0, 0xA0, 0xC0,
            0xE0, 0x80, 0xC0, 0x80, 0xE0, 0xE0, 0x80, 0xC0, 0x80, 0x80,
        ],
        FontName::SUPERCHIP => Seq::empty(),
    }
}

/// The large digit sprites of a font.
pub open spec fn large_font(name: FontName) -> Seq<u8> {
    match name {
        FontName::CHIP8 => seq![
            0xFF, 0xFF, 0xC3, 0xC3, 0xC3, 0xC3, 0xC3, 0xC3, 0xFF, 0xFF,
            0x18, 0x78, 0x78, 0x18, 0x18, 0x18, 0x18, 0x18, 0xFF, 0xFF,
            0xFF, 0xFF, 0x03, 0x03, 0xFF, 0xFF, 0xC0, 0xC0, 0xFF, 0xFF,
            0xFF, 0xFF, 0x03, 0x03, 0xFF, 0xFF, 0x03, 0x03, 0xFF, 0xFF,
            0xC3, 0xC3, 0xC3, 0xC3, 0xFF, 0xFF, 0x03, 0x03, 0x03, 0x03,
            0xFF, 0xFF, 0xC0, 0xC0, 0xFF, 0xFF, 0x03, 0x03, 0xFF, 0xFF,
            0xFF, 0xFF, 0xC0, 0xC0, 0xFF, 0xFF, 0xC3, 0xC3, 0xFF, 0xFF,
            0xFF, 0xFF, 0x03, 0x03, 0x06, 0x0C, 0x18, 0x18, 0x18, 0x18,
            0xFF, 0xFF, 0xC3, 0xC3, 0xFF, 0xFF, 0xC3, 0xC3, 0xFF, 0xFF,
            0xFF, 0xFF, 0xC3, 0xC3, 0xFF, 0xFF, 0x03, 0x03, 0xFF, 0xFF,
            0x7E, 0xFF, 0xC3, 0xC3, 0xC3, 0xFF, 0xFF, 0xC3, 0xC3, 0xC3,
            0xFC, 0xFC, 0xC3, 0xC3, 0xFC, 0xFC, 0xC3, 0xC3, 0xFC, 0xFC,
            0x3C, 0xFF, 0xC3, 0xC0, 0xC0, 0xC0, 0xC0, 0xC3, 0xFF, 0x3C,
            0xFC, 0xFE, 0xC3, 0xC3, 0xC3, 0xC3, 0xC3, 0xC3, 0xFE, 0xFC,
            0xFF, 0xFF, 0xC0, 0xC0, 0xFF, 0xFF, 0xC0, 0xC0, 0xFF, 0xFF,
            0xFF, 0xFF, 0xC0, 0xC0, 0xFF, 0xFF, 0xC0, 0xC0, 0xC0, 0xC0,
        ],
        FontName::VIP => Seq::empty(),
        FontName::DREAM6800 => Seq::empty(),
        FontName::ETI660 => Seq::empty(),
        FontName::FISHIE => seq![
            0x7C, 0xC6, 0xCE, 0xDE, 0xD6, 0xF6, 0xE6, 0xC6, 0x7C, 0x00,
            0x10, 0x30, 0xF0, 0x30, 0x30, 0x30, 0x30, 0x30, 0xFC, 0x00,
            0x78, 0xCC, 0xCC, 0x0C, 0x18, 0x30, 0x60, 0xCC, 0xFC, 0x00,
            0x78, 0xCC, 0x0C, 0x0C, 0x38, 0x0C, 0x0C, 0xCC, 0x78, 0x00,
            0x0C, 0x1C, 0x3C, 0x6C, 0xCC, 0xFE, 0x0C, 0x0C, 0x1E, 0x00,
            0xFC, 0xC0, 0xC0, 0xC0, 0xF8, 0x0C, 0x0C, 0xCC, 0x78, 0x00,
            0x38, 0x60, 0xC0, 0xC0, 0xF8, 0xCC, 0xCC, 0xCC, 0x78, 0x00,
            0xFE, 0xC6, 0xC6, 0x06, 0x0C, 0x18, 0x30, 0x30, 0x30, 0x00,
            0x78, 0xCC, 0xCC, 0xEC, 0x78, 0xDC, 0xCC, 0xCC, 0x78, 0x00,
            0x7C, 0xC6, 0xC6, 0xC6, 0x7C, 0x18, 0x18, 0x30, 0x70, 0x00,
            0x30, 0x78, 0xCC, 0xCC, 0xCC, 0xFC, 0xCC, 0xCC, 0xCC, 0x00,
            0xFC, 0x66, 0x66, 0x66, 0x7C, 0x66, 0x66, 0x66, 0xFC, 0x00,
            0x3C, 0x66, 0xC6, 0xC0, 0xC0, 0xC0, 0xC6, 0x66, 0x3C, 0x00,
            0xF8, 0x6C, 0x66, 0x66, 0x66, 0x66, 0x66, 0x6C, 0xF8, 0x00,
            0xFE, 0x62, 0x60, 0x64, 0x7C, 0x64, 0x60, 0x62, 0xFE, 0x00,
            0xFE, 0x66, 0x62, 0x64, 0x7C, 0x64, 0x60, 0x60, 0xF0, 0x00,
        ],
        FontName::SUPERCHIP => seq![
            0x3C, 0x7E, 0xE7, 0xC3, 0xC3, 0xC3, 0xC3, 0xE7, 0x7E, 0x3C,
            0x18, 0x38, 0x58, 0x18, 0x18, 0x18, 0x18, 0x18, 0x18, 0x3C,
            0x3E, 0x7F, 0xC3, 0x06, 0x0C, 0x18, 0x30, 0x60, 0xFF, 0xFF,
            0x3C, 0x7E, 0xC3, 0x03, 0x0E, 0x0E, 0x03, 0xC3, 0x7E, 0x3C,
            0x06, 0x0E, 0x1E, 0x36, 0x66, 0xC6, 0xFF, 0xFF, 0x06, 0x06,
            0xFF, 0xFF, 0xC0, 0xC0, 0xFC, 0xFE, 0x03, 0xC3, 0x7E, 0x3C,
            0x3E, 0x7C, 0xE0, 0xC0, 0xFC, 0xFE, 0xC3, 0xC3, 0x7E, 0x3C,
            0xFF, 0xFF, 0x03, 0x06, 0x0C, 0x18, 0x30, 0x60, 0x60, 0x60,
            0x3C, 0x7E, 0xC3, 0xC3, 0x7E, 0x7E, 0xC3, 0xC3, 0x7E, 0x3C,
            0x3C, 0x7E, 0xC3, 0xC3, 0x7F, 0x3F, 0x03, 0x03, 0x3E, 0x7C,
            0x00, 0x00, 0x00, 0x00, 0x00, 0x00, 0x00, 0x00, 0x00, 0x00,
            0x00, 0x00, 0x00, 0x00, 0x00, 0x00, 0x00, 0x00, 0x00, 0x00,
            0x00, 0x00, 0x00, 0x00, 0x00, 0x00, 0x00, 0x00, 0x00, 0x00,
            0x00, 0x00, 0x00, 0x00, 0x00, 0x00, 0x00, 0x00, 0x00, 0x00,
            0x00, 0x00, 0x00, 0x00, 0x00, 0x00, 0x00, 0x00, 0x00, 0x00,
            0x00, 0x00, 0x00, 0x00, 0x00, 0x00, 0x00, 0x00, 0x00, 0x00,
        ],
    }
}

/// The small digit sprites of a font, as bytes.
fn small_font_bytes(name: FontName) -> (bytes: Vec<u8>)
    ensures
        bytes@ == small_font(name),
{
    match name {
        FontName::CHIP8 => {
            let bytes = vec![
                0xF0, 0x90, 0x90, 0x90, 0xF0, 0x20, 0x60, 0x20, 0x20, 0x70,
                0xF0, 0x10, 0xF0, 0x80, 0xF0, 0xF0, 0x10, 0xF0, 0x10, 0xF0,
                0x90, 0x90, 0xF0, 0x10, 0x10, 0xF0, 0x80, 0xF0, 0x10, 0xF0,
                0xF0, 0x80, 0xF0, 0x90, 0xF0, 0xF0, 0x10, 0x20, 0x40, 0x40,
                0xF0, 0x90, 0xF0, 0x90, 0xF0, 0xF0, 0x90, 0xF0, 0x10, 0xF0,
                0xF0, 0x90, 0xF0, 0x90, 0x90, 0xE0, 0x90, 0xE0, 0x90, 0xE0,
                0xF0, 0x80, 0x80, 0x80, 0xF0, 0xE0, 0x90, 0x90, 0x90, 0xE0,
                0xF0, 0x80, 0xF0, 0x80, 0xF0, 0xF0, 0x80, 0xF0, 0x80, 0x80,
            ];
            assert(bytes@ =~= small_font(name));
            bytes
        },
        FontName::VIP => {
            let bytes = vec![
                0xF0, 0x90, 0x90, 0x90, 0xF0, 0x60, 0x20, 0x20, 0x20, 0x70,
                0xF0, 0x10, 0xF0, 0x80, 0xF0, 0xF0, 0x10, 0xF0, 0x10, 0xF0,
                0xA0, 0xA0, 0xF0, 0x20, 0x20, 0xF0, 0x80, 0xF0, 0x10, 0xF0,
                0xF0, 0x80, 0xF0, 0x90, 0xF0, 0xF0, 0x10, 0x10, 0x10, 0x10,
                0xF0, 0x90, 0xF0, 0x90, 0xF0, 0xF0, 0x90, 0xF0, 0x10, 0xF0,
                0xF0, 0x90, 0xF0, 0x90, 0x90, 0xF0, 0x50, 0x70, 0x50, 0xF0,
                0xF0, 0x80, 0x80, 0x80, 0xF0, 0xF0, 0x50, 0x50, 0x50, 0xF0,
                0xF0, 0x80, 0xF0, 0x80, 0xF0, 0xF0, 0x80, 0xF0, 0x80, 0x80,
            ];
            assert(bytes@ =~= small_font(name));
            bytes
        },
        FontName::DREAM6800 => {
            let bytes = vec![
                0xE0, 0xA0, 0xA0, 0xA0, 0xE0, 0x40, 0x40, 0x40, 0x40, 0x40,
                0xE0, 0x20, 0xE0, 0x80, 0xE0, 0xE0, 0x20, 0xE0, 0x20, 0xE0,
                0x80, 0xA0, 0xA0, 0xE0, 0x20, 0xE0, 0x80, 0xE0, 0x20, 0xE0,
                0xE0, 0x80, 0xE0, 0xA0, 0xE0, 0xE0, 0x20, 0x20, 0x20, 0x20,
                0xE0, 0xA0, 0xE0, 0xA0, 0xE0, 0xE0, 0xA0, 0xE0, 0x20, 0xE0,
                0xE0, 0xA0, 0xE0, 0xA0, 0xA0, 0xC0, 0xA0, 0xE0, 0xA0, 0xC0,
                0xE0, 0x80, 0x80, 0x80, 0xE0, 0xC0, 0xA0, 0xA0, 0xA0, 0xC0,
                0xE0, 0x80, 0xE0, 0x80, 0xE0, 0xE0, 0x80, 0xC0, 0x80, 0x80,
            ];
            assert(bytes@ =~= small_font(name));
            bytes
        },
        FontName::ETI660 => {
            let bytes = vec![
                0xE0, 0xA0, 0xA0, 0xA0, 0xE0, 0x20, 0x20, 0x20, 0x20, 0x20,
                0xE0, 0x20, 0xE0, 0x80, 0xE0, 0xE0, 0x20, 0xE0, 0x20, 0xE0,
                0xA0, 0xA0, 0xE0, 0x20, 0x20, 0xE0, 0x80, 0xE0, 0x20, 0xE0,
                0xE0, 0x80, 0xE0, 0xA0, 0xE0, 0xE0, 0x20, 0x20, 0x20, 0x20,
                0xE0, 0xA0, 0xE0, 0xA0, 0xE0, 0xE0, 0xA0, 0xE0, 0x20, 0xE0,
                0xE0, 0xA0, 0xE0, 0xA0, 0xA0, 0x80, 0x80, 0xE0, 0xA0, 0xE0,
                0xE0, 0x80, 0x80, 0x80, 0xE0, 0x20, 0x20, 0xE0, 0xA0, 0xE0,
                0xE0, 0x80, 0xE0, 0x80, 0xE0, 0xE0, 0x80, 0xC0, 0x80, 0x80,
            ];
            assert(bytes@ =~= small_font(name));
            bytes
        },
        FontName::FISHIE => {
            let bytes = vec![
                0x60, 0xA0, 0xA0, 0xA0, 0xC0, 0x40, 0xC0, 0x40, 0x40, 0xE0,
                0xC0, 0x20, 0x40, 0x80, 0xE0, 0xC0, 0x20, 0x40, 0x20, 0xC0,
                0x20, 0xA0, 0xE0, 0x20, 0x20, 0xE0, 0x80, 0xC0, 0x20, 0xC0,
                0x40, 0x80, 0xC0, 0xA0, 0x40, 0xE0, 0x20, 0x60, 0x40, 0x40,
                0x40, 0xA0, 0x40, 0xA0, 0x40, 0x40, 0xA0, 0x60, 0x20, 0x40,
                0x40, 0xA0, 0xE0, 0xA0, 0xA0, 0xC0, 0xA0, 0xC0, 0xA0, 0xC0,
                0x60, 0x80, 0x80, 0x80, 0x60, 0xC0, 0xA0, 0xA0, 0xA0, 0xC0,
                0xE0, 0x80, 0xC0, 0x80, 0xE0, 0xE0, 0x80, 0xC0, 0x80, 0x80,
            ];
            assert(bytes@ =~= small_font(name));
            bytes
        },
        FontName::SUPERCHIP => {
            let bytes: Vec<u8> = Vec::new();
            assert(bytes@ =~= small_font(name));
            bytes
        },
    }
}

/// The large digit sprites of a font, as bytes.
fn large_font_bytes(name: FontName) -> (bytes: Vec<u8>)
    ensures
        bytes@ == large_font(name),
{
    match name {
        FontName::CHIP8 => {
            let bytes = vec![
                0xFF, 0xFF, 0xC3, 0xC3, 0xC3, 0xC3, 0xC3, 0xC3, 0xFF, 0xFF,
                0x18, 0x78, 0x78, 0x18, 0x18, 0x18, 0x18, 0x18, 0xFF, 0xFF,
                0xFF, 0xFF, 0x03, 0x03, 0xFF, 0xFF, 0xC0, 0xC0, 0xFF, 0xFF,
                0xFF, 0xFF, 0x03, 0x03, 0xFF, 0xFF, 0x03, 0x03, 0xFF, 0xFF,
                0xC3, 0xC3, 0xC3, 0xC3, 0xFF, 0xFF, 0x03, 0x03, 0x03, 0x03,
                0xFF, 0xFF, 0xC0, 0xC0, 0xFF, 0xFF, 0x03, 0x03, 0xFF, 0xFF,
                0xFF, 0xFF, 0xC0, 0xC0, 0xFF, 0xFF, 0xC3, 0xC3, 0xFF, 0xFF,
                0xFF, 0xFF, 0x03, 0x03, 0x06, 0x0C, 0x18, 0x18, 0x18, 0x18,
                0xFF, 0xFF, 0xC3, 0xC3, 0xFF, 0xFF, 0xC3, 0xC3, 0xFF, 0xFF,
                0xFF, 0xFF, 0xC3, 0xC3, 0xFF, 0xFF, 0x03, 0x03, 0xFF, 0xFF,
                0x7E, 0xFF, 0xC3, 0xC3, 0xC3, 0xFF, 0xFF, 0xC3, 0xC3, 0xC3,
                0xFC, 0xFC, 0xC3, 0xC3, 0xFC, 0xFC, 0xC3, 0xC3, 0xFC, 0xFC,
                0x3C, 0xFF, 0xC3, 0xC0, 0xC0, 0xC0, 0xC0, 0xC3, 0xFF, 0x3C,
                0xFC, 0xFE, 0xC3, 0xC3, 0xC3, 0xC3, 0xC3, 0xC3, 0xFE, 0xFC,
                0xFF, 0xFF, 0xC0, 0xC0, 0xFF, 0xFF, 0xC0, 0xC0, 0xFF, 0xFF,
                0xFF, 0xFF, 0xC0, 0xC0, 0xFF, 0xFF, 0xC0, 0xC0, 0xC0, 0xC0,
            ];
            assert(bytes@ =~= large_font(name));
            bytes
        },
        FontName::VIP => {
            let bytes: Vec<u8> = Vec::new();
            assert(bytes@ =~= large_font(name));
            bytes
        },
        FontName::DREAM6800 => {
            let bytes: Vec<u8> = Vec::new();
            assert(bytes@ =~= large_font(name));
            bytes
        },
        FontName::ETI660 => {
            let bytes: Vec<u8> = Vec::new();
            assert(bytes@ =~= large_font(name));
            bytes
        },
        FontName::FISHIE => {
            let bytes = vec![
                0x7C, 0xC6, 0xCE, 0xDE, 0xD6, 0xF6, 0xE6, 0xC6, 0x7C, 0x00,
                0x10, 0x30, 0xF0, 0x30, 0x30, 0x30, 0x30, 0x30, 0xFC, 0x00,
                0x78, 0xCC, 0xCC, 0x0C, 0x18, 0x30, 0x60, 0xCC, 0xFC, 0x00,
                0x78, 0xCC, 0x0C, 0x0C, 0x38, 0x0C, 0x0C, 0xCC, 0x78, 0x00,
                0x0C, 0x1C, 0x3C, 0x6C, 0xCC, 0xFE, 0x0C, 0x0C, 0x1E, 0x00,
                0xFC, 0xC0, 0xC0, 0xC0, 0xF8, 0x0C, 0x0C, 0xCC, 0x78, 0x00,
                0x38, 0x60, 0xC0, 0xC0, 0xF8, 0xCC, 0xCC, 0xCC, 0x78, 0x00,
                0xFE, 0xC6, 0xC6, 0x06, 0x0C, 0x18, 0x30, 0x30, 0x30, 0x00,
                0x78, 0xCC, 0xCC, 0xEC, 0x78, 0xDC, 0xCC, 0xCC, 0x78, 0x00,
                0x7C, 0xC6, 0xC6, 0xC6, 0x7C, 0x18, 0x18, 0x30, 0x70, 0x00,
                0x30, 0x78, 0xCC, 0xCC, 0xCC, 0xFC, 0xCC, 0xCC, 0xCC, 0x00,
                0xFC, 0x66, 0x66, 0x66, 0x7C, 0x66, 0x66, 0x66, 0xFC, 0x00,
                0x3C, 0x66, 0xC6, 0xC0, 0xC0, 0xC0, 0xC6, 0x66, 0x3C, 0x00,
                0xF8, 0x6C, 0x66, 0x66, 0x66, 0x66, 0x66, 0x6C, 0xF8, 0x00,
                0xFE, 0x62, 0x60, 0x64, 0x7C, 0x64, 0x60, 0x62, 0xFE, 0x00,
                0xFE, 0x66, 0x62, 0x64, 0x7C, 0x64, 0x60, 0x60, 0xF0, 0x00,
            ];
            assert(bytes@ =~= large_font(name));
            bytes
        },
        FontName::SUPERCHIP => {
            let bytes = vec![
                0x3C, 0x7E, 0xE7, 0xC3, 0xC3, 0xC3, 0xC3, 0xE7, 0x7E, 0x3C,
                0x18, 0x38, 0x58, 0x18, 0x18, 0x18, 0x18, 0x18, 0x18, 0x3C,
                0x3E, 0x7F, 0xC3, 0x06, 0x0C, 0x18, 0x30, 0x60, 0xFF, 0xFF,
                0x3C, 0x7E, 0xC3, 0x03, 0x0E, 0x0E, 0x03, 0xC3, 0x7E, 0x3C,
                0x06, 0x0E, 0x1E, 0x36, 0x66, 0xC6, 0xFF, 0xFF, 0x06, 0x06,
                0xFF, 0xFF, 0xC0, 0xC0, 0xFC, 0xFE, 0x03, 0xC3, 0x7E, 0x3C,
                0x3E, 0x7C, 0xE0, 0xC0, 0xFC, 0xFE, 0xC3, 0xC3, 0x7E, 0x3C,
                0xFF, 0xFF, 0x03, 0x06, 0x0C, 0x18, 0x30, 0x60, 0x60, 0x60,
                0x3C, 0x7E, 0xC3, 0xC3, 0x7E, 0x7E, 0xC3, 0xC3, 0x7E, 0x3C,
                0x3C, 0x7E, 0xC3, 0xC3, 0x7F, 0x3F, 0x03, 0x03, 0x3E, 0x7C,
                0x00, 0x00, 0x00, 0x00, 0x00, 0x00, 0x00, 0x00, 0x00, 0x00,
                0x00, 0x00, 0x00, 0x00, 0x00, 0x00, 0x00, 0x00, 0x00, 0x00,
                0x00, 0x00, 0x00, 0x00, 0x00, 0x00, 0x00, 0x00, 0x00, 0x00,
                0x00, 0x00, 0x00, 0x00, 0x00, 0x00, 0x00, 0x00, 0x00, 0x00,
                0x00, 0x00, 0x00, 0x00, 0x00, 0x00, 0x00, 0x00, 0x00, 0x00,
                0x00, 0x00, 0x00, 0x00, 0x00, 0x00, 0x00, 0x00, 0x00, 0x00,
            ];
            assert(bytes@ =~= large_font(name));
            bytes
        },
    }
}

/// Font data collection: the font data of a system font.
pub fn font_data(name: FontName) -> (data: FontData)
    ensures
        data.name == name,
        data.small_data@ == small_font(name),
        data.large_data@ == large_font(name),
{
    FontData { name, small_data: small_font_bytes(name), large_data: large_font_bytes(name) }
}

/// Number of bytes of the small sprites of a font.
pub fn small_font_len(name: FontName) -> (len: usize)
    ensures
        len == small_font(name).len(),
{
    match name {
        FontName::SUPERCHIP => 0,
        _ => 80,
    }
}

} // verus!
