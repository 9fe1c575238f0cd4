use vstd::prelude::*;

verus! {

/// First address of the program area; the program counter starts here.
pub const PROGRAM_START_ADDRESS: usize = 0x200;

/// First address of the built-in hexadecimal font.
pub const FONT_SET_START_ADDRESS: usize = 0x50;

/// Number of bytes in the built-in font: sixteen glyphs of five rows each.
pub const FONT_SET_SIZE: usize = 80;

/// Value of a framebuffer cell whose pixel is lit.
pub const PIXEL_ON: u32 = 0xFFFF_FFFF;

/// Value of a framebuffer cell whose pixel is dark.
pub const PIXEL_OFF: u32 = 0;

/// The built-in font: glyphs for the digits 0 to F, five rows each, the
/// four leftmost bits of every row holding the picture.
pub const FONT_SET: [u8; 80] = [
    0xF0, 0x90, 0x90, 0x90, 0xF0,
    0x20, 0x60, 0x20, 0x20, 0x70,
    0xF0, 0x10, 0xF0, 0x80, 0xF0,
    0xF0, 0x10, 0xF0, 0x10, 0xF0,
    0x90, 0x90, 0xF0, 0x10, 0x10,
    0xF0, 0x80, 0xF0, 0x10, 0xF0,
    0xF0, 0x80, 0xF0, 0x90, 0xF0,
    0xF0, 0x10, 0x20, 0x40, 0x40,
    0xF0, 0x90, 0xF0, 0x90, 0xF0,
    0xF0, 0x90, 0xF0, 0x10, 0xF0,
    0xF0, 0x90, 0xF0, 0x90, 0x90,
    0xE0, 0x90, 0xE0, 0x90, 0xE0,
    0xF0, 0x80, 0x80, 0x80, 0xF0,
    0xE0, 0x90, 0x90, 0x90, 0xE0,
    0xF0, 0x80, 0xF0, 0x80, 0xF0,
    0xF0, 0x80, 0xF0, 0x80, 0x80,
];

} // verus!
