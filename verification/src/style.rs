//! The style a glyph is written with.

use vstd::prelude::*;
use crate::color::Color;

verus! {

/// What a write changes of a cell besides its glyph. A colour that is
/// `None` leaves the cell's colour as it is; the bits of `add_modifier` are
/// switched on in the cell and those of `sub_modifier` switched off.
#[derive(Debug, Clone, Copy, PartialEq, Eq)]
pub struct Style {
    pub fg: Option<Color>,
    pub bg: Option<Color>,
    pub add_modifier: u16,
    pub sub_modifier: u16,
}

impl Style {
    /// The style that changes nothing of a cell.
    pub open spec fn plain() -> Style {
        Style { fg: None, bg: None, add_modifier: 0, sub_modifier: 0 }
    }

    /// The style that changes nothing of a cell.
    pub fn new() -> (style: Style)
        ensures
            style == Style::plain(),
    {
        Style { fg: None, bg: None, add_modifier: 0, sub_modifier: 0 }
    }

    /// The same style with `color` as its foreground.
    pub fn fg(self, color: Color) -> (style: Style)
        ensures
            style == (Style { fg: Some(color), ..self }),
    {
        Style {
            fg: Some(color),
            bg: self.bg,
            add_modifier: self.add_modifier,
            sub_modifier: self.sub_modifier,
        }
    }

    /// The same style with `color` as its background.
    pub fn bg(self, color: Color) -> (style: Style)
        ensures
            style == (Style { bg: Some(color), ..self }),
    {
        Style {
            fg: self.fg,
            bg: Some(color),
            add_modifier: self.add_modifier,
            sub_modifier: self.sub_modifier,
        }
    }
}

impl Default for Style {
    fn default() -> (style: Style)
        ensures
            style == Style::plain(),
    {
        Style::new()
    }
}

} // verus!
