//! Colours, and their conversion to explicit red, green and blue channels.

use vstd::prelude::*;

verus! {

/// A terminal colour: the terminal's default, one of the sixteen named
/// colours, an explicit channel triple, or an entry of the indexed palette.
#[derive(Debug, Clone, Copy, PartialEq, Eq, Hash, Structural)]
pub enum Color {
    Reset,
    Black,
    Red,
    Green,
    Yellow,
    Blue,
    Magenta,
    Cyan,
    Gray,
    DarkGray,
    LightRed,
    LightGreen,
    LightYellow,
    LightBlue,
    LightMagenta,
    LightCyan,
    White,
    Rgb(u8, u8, u8),
    Indexed(u8),
}

/// The channels that stand for a colour with no entry in the palette.
pub open spec fn fallback_rgb() -> (u8, u8, u8) {
    (255u8, 255u8, 255u8)
}

/// The sixteen-entry palette: entries 0 to 7 are the dark colours, 8 to 15
/// their light counterparts. Any other index gives the fallback.
pub open spec fn palette(index: int) -> (u8, u8, u8) {
    if index == 0 {
        (0u8, 0u8, 0u8)
    } else if index == 1 {
        (170u8, 0u8, 0u8)
    } else if index == 2 {
        (0u8, 170u8, 0u8)
    } else if index == 3 {
        (170u8, 85u8, 0u8)
    } else if index == 4 {
        (0u8, 0u8, 170u8)
    } else if index == 5 {
        (170u8, 0u8, 170u8)
    } else if index == 6 {
        (0u8, 170u8, 170u8)
    } else if index == 7 {
        (170u8, 170u8, 170u8)
    } else if index == 8 {
        (85u8, 85u8, 85u8)
    } else if index == 9 {
        (255u8, 85u8, 85u8)
    } else if index == 10 {
        (85u8, 255u8, 85u8)
    } else if index == 11 {
        (255u8, 255u8, 85u8)
    } else if index == 12 {
        (85u8, 85u8, 255u8)
    } else if index == 13 {
        (255u8, 85u8, 255u8)
    } else if index == 14 {
        (85u8, 255u8, 255u8)
    } else if index == 15 {
        (255u8, 255u8, 255u8)
    } else {
        fallback_rgb()
    }
}

/// The palette entry that a named colour shares its channels with; `None`
/// for a colour that has no name.
pub open spec fn named_index(color: Color) -> Option<int> {
    match color {
        Color::Black => Some(0),
        Color::Red => Some(1),
        Color::Green => Some(2),
        Color::Yellow => Some(3),
        Color::Blue => Some(4),
        Color::Magenta => Some(5),
        Color::Cyan => Some(6),
        Color::Gray => Some(7),
        Color::DarkGray => Some(8),
        Color::LightRed => Some(9),
        Color::LightGreen => Some(10),
        Color::LightYellow => Some(11),
        Color::LightBlue => Some(12),
        Color::LightMagenta => Some(13),
        Color::LightCyan => Some(14),
        Color::White => Some(15),
        _ => None,
    }
}

/// The channels of a colour: its own for an explicit triple, the palette
/// entry for an indexed or a named colour, the fallback for anything else.
pub open spec fn rgb_of(color: Color) -> (u8, u8, u8) {
    match color {
        Color::Rgb(r, g, b) => (r, g, b),
        Color::Indexed(i) => palette(i as int),
        _ => match named_index(color) {
            Some(i) => palette(i),
            None => fallback_rgb(),
        },
    }
}

/// Converts any colour to explicit channels. Total: a colour without a
/// palette entry, and an index above 15, come out white.
pub fn color_to_rgb(color: Color) -> (rgb: (u8, u8, u8))
    ensures
        rgb == rgb_of(color),
{
    match color {
        Color::Rgb(r, g, b) => (r, g, b),
        Color::Indexed(i) => {
            match i {
                0 => (0, 0, 0),
                1 => (170, 0, 0),
                2 => (0, 170, 0),
                3 => (170, 85, 0),
                4 => (0, 0, 170),
                5 => (170, 0, 170),
                6 => (0, 170, 170),
                7 => (170, 170, 170),
                8 => (85, 85, 85),
                9 => (255, 85, 85),
                10 => (85, 255, 85),
                11 => (255, 255, 85),
                12 => (85, 85, 255),
                13 => (255, 85, 255),
                14 => (85, 255, 255),
                15 => (255, 255, 255),
                _ => (255, 255, 255),
            }
        },
        Color::Black => (0, 0, 0),
        Color::Red => (170, 0, 0),
        Color::Green => (0, 170, 0),
        Color::Yellow => (170, 85, 0),
        Color::Blue => (0, 0, 170),
        Color::Magenta => (170, 0, 170),
        Color::Cyan => (0, 170, 170),
        Color::Gray => (170, 170, 170),
        Color::DarkGray => (85, 85, 85),
        Color::LightRed => (255, 85, 85),
        Color::LightGreen => (85, 255, 85),
        Color::LightYellow => (255, 255, 85),
        Color::LightBlue => (85, 85, 255),
        Color::LightMagenta => (255, 85, 255),
        Color::LightCyan => (85, 255, 255),
        Color::White => (255, 255, 255),
        _ => (255, 255, 255),
    }
}

/// Builds the explicit colour of three channels.
pub fn color_from_rgb(r: u8, g: u8, b: u8) -> (color: Color)
    ensures
        color == Color::Rgb(r, g, b),
        rgb_of(color) == (r, g, b),
{
    Color::Rgb(r, g, b)
}

} // verus!
