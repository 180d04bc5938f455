//! Detection of decorative glyphs (box drawing, block elements, Powerline
//! symbols and the like) that need exact colours and special fonts.

use vstd::prelude::*;

verus! {

/// The code point ranges treated as decorative: box drawing, block elements,
/// geometric shapes, Powerline symbols and extras, braille, dingbats.
pub open spec fn is_decorative_code(code: u32) -> bool {
    (0x2500 <= code && code <= 0x257F) || (0x2580 <= code && code <= 0x259F) || (0x25A0 <= code
        && code <= 0x25FF) || (0xE0B0 <= code && code <= 0xE0BF) || (0xE0C0 <= code && code
        <= 0xE0D7) || (0x2800 <= code && code <= 0x28FF) || (0x2700 <= code && code <= 0x27BF)
}

/// Whether `ch` is a decorative character needing special rendering.
pub fn is_decorative_character(ch: char) -> (r: bool)
    ensures
        r == is_decorative_code(ch as u32),
{
    let code = ch as u32;
    (0x2500 <= code && code <= 0x257F) || (0x2580 <= code && code <= 0x259F) || (0x25A0 <= code
        && code <= 0x25FF) || (0xE0B0 <= code && code <= 0xE0BF) || (0xE0C0 <= code && code
        <= 0xE0D7) || (0x2800 <= code && code <= 0x28FF) || (0x2700 <= code && code <= 0x27BF)
}

/// Whether `ch` is a Powerline symbol (U+E0B0 to U+E0D7).
pub fn is_powerline_symbol(ch: char) -> (r: bool)
    ensures
        r == (0xE0B0 <= ch as u32 && ch as u32 <= 0xE0D7),
{
    let code = ch as u32;
    0xE0B0 <= code && code <= 0xE0D7
}

/// Whether `ch` is a box-drawing character (U+2500 to U+257F).
pub fn is_box_drawing(ch: char) -> (r: bool)
    ensures
        r == (0x2500 <= ch as u32 && ch as u32 <= 0x257F),
{
    let code = ch as u32;
    0x2500 <= code && code <= 0x257F
}

/// Whether `ch` is a block element (U+2580 to U+259F).
pub fn is_block_element(ch: char) -> (r: bool)
    ensures
        r == (0x2580 <= ch as u32 && ch as u32 <= 0x259F),
{
    let code = ch as u32;
    0x2580 <= code && code <= 0x259F
}

} // verus!
