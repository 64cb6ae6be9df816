//! The glyphs a column is drawn with.

use vstd::prelude::*;

verus! {

/// The cell left untouched by a fill level that names no glyph.
pub const BLANK: char = ' ';

/// All four dots of the left dot column.
pub const FULL_COLUMN: char = '\u{2847}';

/// The left half block that block mode fills a cell with.
pub const HALF_BLOCK: char = '\u{258C}';

/// The glyph of an upward-growing cell holding `height_in_dots` sub-units:
/// the dots fill from the bottom of the cell.
pub open spec fn thin_fill(height_in_dots: int) -> char {
    if height_in_dots == 1 {
        '\u{2840}'
    } else if height_in_dots == 2 {
        '\u{2844}'
    } else if height_in_dots == 3 {
        '\u{2846}'
    } else if height_in_dots == 4 {
        '\u{2847}'
    } else {
        ' '
    }
}

/// The glyph of a downward-growing cell holding `height_in_dots` sub-units:
/// the dots fill from the top of the cell.
pub open spec fn thin_fill_bottom(height_in_dots: int) -> char {
    if height_in_dots == 1 {
        '\u{2801}'
    } else if height_in_dots == 2 {
        '\u{2803}'
    } else if height_in_dots == 3 {
        '\u{2807}'
    } else if height_in_dots == 4 {
        '\u{2847}'
    } else {
        ' '
    }
}

/// Glyph for a cell of the upper polarity filled to `height_in_dots` of its
/// four sub-units; blank for a count outside `1..=4`.
pub fn get_thin_braille_fill(height_in_dots: u8) -> (glyph: char)
    ensures
        glyph == thin_fill(height_in_dots as int),
        height_in_dots == 0 || height_in_dots > 4 ==> glyph == BLANK,
        height_in_dots == 4 ==> glyph == FULL_COLUMN,
{
    match height_in_dots {
        1 => '\u{2840}',
        2 => '\u{2844}',
        3 => '\u{2846}',
        4 => '\u{2847}',
        _ => ' ',
    }
}

/// Glyph for a cell of the lower polarity filled to `height_in_dots` of its
/// four sub-units; blank for a count outside `1..=4`.
pub fn get_thin_braille_fill_bottom(height_in_dots: u8) -> (glyph: char)
    ensures
        glyph == thin_fill_bottom(height_in_dots as int),
        height_in_dots == 0 || height_in_dots > 4 ==> glyph == BLANK,
        height_in_dots == 4 ==> glyph == FULL_COLUMN,
{
    match height_in_dots {
        1 => '\u{2801}',
        2 => '\u{2803}',
        3 => '\u{2807}',
        4 => '\u{2847}',
        _ => ' ',
    }
}

} // verus!
