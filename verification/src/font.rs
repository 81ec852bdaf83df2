use vstd::prelude::*;

verus! {

/// Number of glyphs of the font.
pub const FONT_GLYPHS: usize = 96;

/// The first character that has a glyph.
pub const FONT_FIRST: u8 = 0x20;

/// The bitmaps of the characters 0x20 to 0x7f: eight rows for each, one
/// byte a row, the leftmost pixel in bit 7.
pub const FONT: [u8; 768] = [
    0x00, 0x00, 0x00, 0x00, 0x00, 0x00, 0x00, 0x00,
    0x10, 0x10, 0x10, 0x10, 0x10, 0x00, 0x10, 0x00,
    0x28, 0x28, 0x00, 0x00, 0x00, 0x00, 0x00, 0x00,
    0x00, 0x24, 0x7e, 0x24, 0x24, 0x7e, 0x24, 0x00,
    0x08, 0x3e, 0x48, 0x3c, 0x12, 0x7c, 0x10, 0x00,
    0x42, 0xa4, 0x48, 0x10, 0x24, 0x4a, 0x84, 0x00,
    0x60, 0x90, 0x90, 0x70, 0x8a, 0x84, 0x7a, 0x00,
    0x08, 0x08, 0x10, 0x00, 0x00, 0x00, 0x00, 0x00,
    0x06, 0x08, 0x10, 0x10, 0x10, 0x08, 0x06, 0x00,
    0xc0, 0x20, 0x10, 0x10, 0x10, 0x20, 0xc0, 0x00,
    0x00, 0x44, 0x28, 0x10, 0x28, 0x44, 0x00, 0x00,
    0x00, 0x10, 0x10, 0x7c, 0x10, 0x10, 0x00, 0x00,
    0x00, 0x00, 0x00, 0x00, 0x00, 0x10, 0x10, 0x20,
    0x00, 0x00, 0x00, 0x7c, 0x00, 0x00, 0x00, 0x00,
    0x00, 0x00, 0x00, 0x00, 0x10, 0x28, 0x10, 0x00,
    0x00, 0x04, 0x08, 0x10, 0x20, 0x40, 0x00, 0x00,
    0x78, 0x84, 0x8c, 0x94, 0xa4, 0xc4, 0x78, 0x00,
    0x10, 0x30, 0x50, 0x10, 0x10, 0x10, 0x7c, 0x00,
    0x78, 0x84, 0x04, 0x08, 0x30, 0x40, 0xfc, 0x00,
    0x78, 0x84, 0x04, 0x38, 0x04, 0x84, 0x78, 0x00,
    0x08, 0x18, 0x28, 0x48, 0xfc, 0x08, 0x08, 0x00,
    0xfc, 0x80, 0xf8, 0x04, 0x04, 0x84, 0x78, 0x00,
    0x38, 0x40, 0x80, 0xf8, 0x84, 0x84, 0x78, 0x00,
    0xfc, 0x04, 0x04, 0x08, 0x10, 0x20, 0x40, 0x00,
    0x78, 0x84, 0x84, 0x78, 0x84, 0x84, 0x78, 0x00,
    0x78, 0x84, 0x84, 0x7c, 0x04, 0x08, 0x70, 0x00,
    0x00, 0x18, 0x18, 0x00, 0x00, 0x18, 0x18, 0x00,
    0x00, 0x00, 0x18, 0x18, 0x00, 0x10, 0x10, 0x60,
    0x04, 0x08, 0x10, 0x20, 0x10, 0x08, 0x04, 0x00,
    0x00, 0x00, 0xfe, 0x00, 0x00, 0xfe, 0x00, 0x00,
    0x20, 0x10, 0x08, 0x04, 0x08, 0x10, 0x20, 0x00,
    0x7c, 0x82, 0x02, 0x0c, 0x10, 0x00, 0x10, 0x00,
    0x30, 0x18, 0x0c, 0x0c, 0x0c, 0x18, 0x30, 0x00,
    0x78, 0x84, 0x84, 0xfc, 0x84, 0x84, 0x84, 0x00,
    0xf8, 0x84, 0x84, 0xf8, 0x84, 0x84, 0xf8, 0x00,
    0x78, 0x84, 0x80, 0x80, 0x80, 0x84, 0x78, 0x00,
    0xf8, 0x84, 0x84, 0x84, 0x84, 0x84, 0xf8, 0x00,
    0x7c, 0x40, 0x40, 0x78, 0x40, 0x40, 0x7c, 0x00,
    0xfc, 0x80, 0x80, 0xf0, 0x80, 0x80, 0x80, 0x00,
    0x7c, 0x80, 0x80, 0x8c, 0x84, 0x84, 0x7c, 0x00,
    0x84, 0x84, 0x84, 0xfc, 0x84, 0x84, 0x84, 0x00,
    0x7c, 0x10, 0x10, 0x10, 0x10, 0x10, 0x7c, 0x00,
    0x04, 0x04, 0x04, 0x04, 0x84, 0x84, 0x78, 0x00,
    0x8c, 0x90, 0xa0, 0xe0, 0x90, 0x88, 0x84, 0x00,
    0x80, 0x80, 0x80, 0x80, 0x80, 0x80, 0xfc, 0x00,
    0x82, 0xc6, 0xaa, 0x92, 0x82, 0x82, 0x82, 0x00,
    0x84, 0xc4, 0xa4, 0x94, 0x8c, 0x84, 0x84, 0x00,
    0x78, 0x84, 0x84, 0x84, 0x84, 0x84, 0x78, 0x00,
    0xf8, 0x84, 0x84, 0xf8, 0x80, 0x80, 0x80, 0x00,
    0x78, 0x84, 0x84, 0x84, 0x84, 0x8c, 0x7c, 0x03,
    0xf8, 0x84, 0x84, 0xf8, 0x90, 0x88, 0x84, 0x00,
    0x78, 0x84, 0x80, 0x78, 0x04, 0x84, 0x78, 0x00,
    0x7c, 0x10, 0x10, 0x10, 0x10, 0x10, 0x10, 0x00,
    0x84, 0x84, 0x84, 0x84, 0x84, 0x84, 0x78, 0x00,
    0x84, 0x84, 0x84, 0x84, 0x84, 0x48, 0x30, 0x00,
    0x44, 0x44, 0x44, 0x54, 0x54, 0x6c, 0x44, 0x00,
    0x84, 0x48, 0x30, 0x30, 0x48, 0x84, 0x84, 0x00,
    0x44, 0x44, 0x44, 0x38, 0x10, 0x10, 0x10, 0x00,
    0xfc, 0x04, 0x08, 0x10, 0x20, 0x40, 0xfc, 0x00,
    0x1e, 0x10, 0x10, 0x10, 0x10, 0x10, 0x1e, 0x00,
    0x00, 0x40, 0x20, 0x10, 0x08, 0x04, 0x00, 0x00,
    0xf0, 0x10, 0x10, 0x10, 0x10, 0x10, 0xf0, 0x00,
    0x10, 0x28, 0x44, 0x00, 0x00, 0x00, 0x00, 0x00,
    0x00, 0x00, 0x00, 0x00, 0x00, 0x00, 0x00, 0xfe,
    0x20, 0x10, 0x00, 0x00, 0x00, 0x00, 0x00, 0x00,
    0x00, 0x00, 0x38, 0x04, 0x3c, 0x44, 0x3c, 0x00,
    0x40, 0x40, 0x78, 0x44, 0x44, 0x44, 0x78, 0x00,
    0x00, 0x00, 0x3c, 0x40, 0x40, 0x40, 0x3c, 0x00,
    0x04, 0x04, 0x3c, 0x44, 0x44, 0x44, 0x3c, 0x00,
    0x00, 0x00, 0x38, 0x44, 0x7c, 0x40, 0x3c, 0x00,
    0x0c, 0x10, 0x38, 0x10, 0x10, 0x10, 0x10, 0x00,
    0x00, 0x00, 0x3c, 0x44, 0x44, 0x3c, 0x04, 0x38,
    0x40, 0x40, 0x78, 0x44, 0x44, 0x44, 0x44, 0x00,
    0x10, 0x00, 0x10, 0x10, 0x10, 0x10, 0x10, 0x00,
    0x08, 0x00, 0x08, 0x08, 0x08, 0x08, 0x48, 0x30,
    0x40, 0x40, 0x48, 0x50, 0x60, 0x50, 0x48, 0x00,
    0x10, 0x10, 0x10, 0x10, 0x10, 0x10, 0x10, 0x00,
    0x00, 0x00, 0x68, 0x54, 0x54, 0x54, 0x54, 0x00,
    0x00, 0x00, 0x78, 0x44, 0x44, 0x44, 0x44, 0x00,
    0x00, 0x00, 0x38, 0x44, 0x44, 0x44, 0x38, 0x00,
    0x00, 0x00, 0x78, 0x44, 0x44, 0x78, 0x40, 0x40,
    0x00, 0x00, 0x3c, 0x44, 0x44, 0x3c, 0x04, 0x04,
    0x00, 0x00, 0x5c, 0x60, 0x40, 0x40, 0x40, 0x00,
    0x00, 0x00, 0x3c, 0x40, 0x38, 0x04, 0x78, 0x00,
    0x10, 0x10, 0x38, 0x10, 0x10, 0x10, 0x0c, 0x00,
    0x00, 0x00, 0x44, 0x44, 0x44, 0x44, 0x3c, 0x00,
    0x00, 0x00, 0x44, 0x44, 0x44, 0x28, 0x10, 0x00,
    0x00, 0x00, 0x44, 0x54, 0x54, 0x54, 0x28, 0x00,
    0x00, 0x00, 0x44, 0x28, 0x10, 0x28, 0x44, 0x00,
    0x00, 0x00, 0x44, 0x44, 0x44, 0x3c, 0x04, 0x38,
    0x00, 0x00, 0x7c, 0x08, 0x10, 0x20, 0x7c, 0x00,
    0x0c, 0x10, 0x10, 0x20, 0x10, 0x10, 0x0c, 0x00,
    0x10, 0x10, 0x10, 0x10, 0x10, 0x10, 0x10, 0x00,
    0x3c, 0x42, 0x99, 0xa1, 0xa1, 0x99, 0x42, 0x3c,
    0x00, 0x00, 0x32, 0x4c, 0x00, 0x00, 0x00, 0x00,
    0x00, 0x00, 0x00, 0x00, 0x00, 0x00, 0x00, 0x00,
];

} // verus!
