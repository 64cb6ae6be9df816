//! The character grid that a chart is drawn into, and its cells.

use vstd::prelude::*;
use ratatui::style::Color as Paint;
use crate::color::{color_to_rgb, Color};
use crate::style::Style;

verus! {

/// A rectangle of grid positions: `width` columns from `x` on, `height`
/// rows from `y` on.
#[derive(Debug, Clone, Copy, PartialEq, Eq, Structural)]
pub struct Rect {
    pub x: u16,
    pub y: u16,
    pub width: u16,
    pub height: u16,
}

impl Rect {
    /// The column after the last one, or the largest coordinate where that
    /// column has no number.
    pub open spec fn x_end(self) -> int {
        if self.x + self.width > u16::MAX {
            u16::MAX as int
        } else {
            self.x + self.width
        }
    }

    /// The row after the last one, or the largest coordinate where that row
    /// has no number.
    pub open spec fn y_end(self) -> int {
        if self.y + self.height > u16::MAX {
            u16::MAX as int
        } else {
            self.y + self.height
        }
    }

    /// The rectangle holds no position.
    pub open spec fn is_empty(self) -> bool {
        self.width == 0 || self.height == 0
    }

    /// The position `(x, y)` lies in the rectangle.
    pub open spec fn covers(self, x: int, y: int) -> bool {
        self.x <= x < self.x_end() && self.y <= y < self.y_end()
    }

    /// The position `(x, y)` lies between the edges that the origin and the
    /// size give, whether or not they are coordinates.
    pub open spec fn holds(self, x: int, y: int) -> bool {
        self.x <= x < self.x + self.width && self.y <= y < self.y + self.height
    }

    /// Every position of `inner` lies in `self`, and `inner` ends where its
    /// origin and size say.
    pub open spec fn encloses(self, inner: Rect) -> bool {
        &&& self.x <= inner.x
        &&& self.y <= inner.y
        &&& inner.x + inner.width <= self.x_end()
        &&& inner.y + inner.height <= self.y_end()
    }

    /// Along each axis on which `self` has an extent, it lies between the
    /// edges of `outer`.
    pub open spec fn lies_in(self, outer: Rect) -> bool {
        &&& self.width > 0 ==> outer.x <= self.x && self.x + self.width <= outer.x + outer.width
        &&& self.height > 0 ==> outer.y <= self.y && self.y + self.height <= outer.y
            + outer.height
    }

    /// The part of `self` that lies in `outer`: along each axis, from the
    /// later of the two starts to the earlier of the two ends.
    pub open spec fn overlap(self, outer: Rect) -> Rect {
        Rect {
            x: later(self.x, outer.x),
            y: later(self.y, outer.y),
            width: extent(
                later(self.x, outer.x) as int,
                earlier(self.x + self.width, outer.x + outer.width),
            ),
            height: extent(
                later(self.y, outer.y) as int,
                earlier(self.y + self.height, outer.y + outer.height),
            ),
        }
    }

    /// Cuts a rectangle down to the part of it that lies in `outer`. A
    /// rectangle that lies in `outer` already is returned as it is.
    pub fn clipped_to(self, outer: Rect) -> (rect: Rect)
        ensures
            rect == self.overlap(outer),
            rect.lies_in(outer),
            !self.is_empty() && self.lies_in(outer) ==> rect == self,
    {
        let x: u16 = if self.x >= outer.x {
            self.x
        } else {
            outer.x
        };
        let y: u16 = if self.y >= outer.y {
            self.y
        } else {
            outer.y
        };
        let x_end: u32 = if self.x as u32 + self.width as u32 <= outer.x as u32
            + outer.width as u32 {
            self.x as u32 + self.width as u32
        } else {
            outer.x as u32 + outer.width as u32
        };
        let y_end: u32 = if self.y as u32 + self.height as u32 <= outer.y as u32
            + outer.height as u32 {
            self.y as u32 + self.height as u32
        } else {
            outer.y as u32 + outer.height as u32
        };
        let width: u16 = if x_end > x as u32 {
            (x_end - x as u32) as u16
        } else {
            0
        };
        let height: u16 = if y_end > y as u32 {
            (y_end - y as u32) as u16
        } else {
            0
        };
        Rect { x, y, width, height }
    }

    /// A rectangle from its origin and size.
    pub fn new(x: u16, y: u16, width: u16, height: u16) -> (rect: Rect)
        ensures
            rect == (Rect { x, y, width, height }),
    {
        Rect { x, y, width, height }
    }

    /// The first column.
    pub fn left(self) -> (x: u16)
        ensures
            x == self.x,
    {
        self.x
    }

    /// The column after the last one.
    pub fn right(self) -> (x: u16)
        ensures
            x == self.x_end(),
    {
        self.x.saturating_add(self.width)
    }

    /// The first row.
    pub fn top(self) -> (y: u16)
        ensures
            y == self.y,
    {
        self.y
    }

    /// The row after the last one.
    pub fn bottom(self) -> (y: u16)
        ensures
            y == self.y_end(),
    {
        self.y.saturating_add(self.height)
    }
}

/// The later of two starts.
pub open spec fn later(a: u16, b: u16) -> u16 {
    if a >= b {
        a
    } else {
        b
    }
}

/// The earlier of two ends.
pub open spec fn earlier(a: int, b: int) -> int {
    if a <= b {
        a
    } else {
        b
    }
}

/// The length from `start` to `end`, and zero where the end comes first.
pub open spec fn extent(start: int, end: int) -> u16 {
    if end > start {
        (end - start) as u16
    } else {
        0
    }
}

/// What a cell of the grid shows: its text, its two colours and the bits
/// of its text attributes.
pub struct CellModel {
    pub symbol: Seq<char>,
    pub fg: Color,
    pub bg: Color,
    pub modifier: u16,
}

/// The cell that a write of `glyph` with `style` makes of `cell`: the text
/// becomes the glyph, a colour of the style replaces the cell's, and the
/// attribute bits are switched on and then off as the style says.
pub open spec fn stamped(cell: CellModel, glyph: char, style: Style) -> CellModel {
    CellModel {
        symbol: seq![glyph],
        fg: match style.fg {
            Some(color) => color,
            None => cell.fg,
        },
        bg: match style.bg {
            Some(color) => color,
            None => cell.bg,
        },
        modifier: (cell.modifier | style.add_modifier) & !style.sub_modifier,
    }
}

/// Writing the same glyph with the same style a second time changes
/// nothing more.
pub proof fn lemma_stamped_twice(cell: CellModel, glyph: char, style: Style)
    ensures
        stamped(stamped(cell, glyph, style), glyph, style) == stamped(cell, glyph, style),
{
    let m = cell.modifier;
    let a = style.add_modifier;
    let b = style.sub_modifier;
    assert((((m | a) & !b) | a) & !b == (m | a) & !b) by (bit_vector);
}

/// The `Buffer` of ratatui: a rectangle of cells. Nothing of its fields is
/// taken as known; what the library says of a buffer it says through
/// `buffer_cells` and `buffer_area`.
#[verifier::external_type_specification]
#[verifier::external_body]
pub struct ExBuffer(ratatui::buffer::Buffer);

/// The cells of a buffer by position: the position `(x, y)` is in the
/// domain when the buffer has a cell for it, and maps to what that cell
/// shows, each colour under the variant of the same name.
pub uninterp spec fn buffer_cells(buf: ratatui::buffer::Buffer) -> Map<(int, int), CellModel>;

/// The rectangle that a buffer stands for.
pub uninterp spec fn buffer_area(buf: ratatui::buffer::Buffer) -> Rect;

/// A buffer is whole when it has a cell for exactly the positions of its
/// rectangle.
pub open spec fn grid_wf(buf: ratatui::buffer::Buffer) -> bool {
    forall|x: int, y: int| #[trigger]
        buffer_cells(buf).dom().contains((x, y)) <==> buffer_area(buf).covers(x, y)
}

/// Writes a glyph into the cell at `(x, y)`, with an explicit foreground or
/// none and with the two sets of attribute bits.
///
/// Calls `Buffer::index_mut`, then `Cell::set_char` and `Cell::set_style`
/// of ratatui. Indexing gives the cell of a position that the buffer has a
/// cell for and panics otherwise; `set_char` replaces the text by the one
/// character; `set_style` replaces the foreground where the style has
/// one, leaves the background alone where it has none, inserts the added
/// bits and then removes the others. No other cell is touched.
#[verifier::external_body]
pub(crate) fn put_glyph(
    buf: &mut ratatui::buffer::Buffer,
    x: u16,
    y: u16,
    glyph: char,
    fg: Option<(u8, u8, u8)>,
    add_modifier: u16,
    sub_modifier: u16,
)
    requires
        buffer_cells(*old(buf)).dom().contains((x as int, y as int)),
    ensures
        buffer_area(*final(buf)) == buffer_area(*old(buf)),
        buffer_cells(*final(buf)) == buffer_cells(*old(buf)).insert(
            (x as int, y as int),
            stamped(
                buffer_cells(*old(buf))[(x as int, y as int)],
                glyph,
                Style {
                    fg: match fg {
                        Some((r, g, b)) => Some(Color::Rgb(r, g, b)),
                        None => None,
                    },
                    bg: None,
                    add_modifier,
                    sub_modifier,
                },
            ),
        ),
{
    let mut style = ratatui::style::Style::new();
    style.fg = fg.map(|(r, g, b)| ratatui::style::Color::Rgb(r, g, b));
    style.add_modifier = ratatui::style::Modifier::from_bits_retain(add_modifier);
    style.sub_modifier = ratatui::style::Modifier::from_bits_retain(sub_modifier);
    buf[(x, y)].set_char(glyph).set_style(style);
}

/// Sets the background of the cell at `(x, y)`.
///
/// Calls `Buffer::index_mut` and `Cell::set_bg` of ratatui, with the colour
/// under the variant of the same name: the background of that one cell
/// becomes the colour, and nothing else changes.
#[verifier::external_body]
pub(crate) fn put_background(buf: &mut ratatui::buffer::Buffer, x: u16, y: u16, bg: Color)
    requires
        buffer_cells(*old(buf)).dom().contains((x as int, y as int)),
    ensures
        buffer_area(*final(buf)) == buffer_area(*old(buf)),
        buffer_cells(*final(buf)) == buffer_cells(*old(buf)).insert(
            (x as int, y as int),
            (CellModel { bg, ..buffer_cells(*old(buf))[(x as int, y as int)] }),
        ),
{
    buf[(x, y)].set_bg(match bg {
        Color::Reset => Paint::Reset, Color::Black => Paint::Black,
        Color::Red => Paint::Red, Color::Green => Paint::Green,
        Color::Yellow => Paint::Yellow, Color::Blue => Paint::Blue,
        Color::Magenta => Paint::Magenta, Color::Cyan => Paint::Cyan,
        Color::Gray => Paint::Gray, Color::DarkGray => Paint::DarkGray,
        Color::LightRed => Paint::LightRed, Color::LightGreen => Paint::LightGreen,
        Color::LightYellow => Paint::LightYellow, Color::LightBlue => Paint::LightBlue,
        Color::LightMagenta => Paint::LightMagenta, Color::LightCyan => Paint::LightCyan,
        Color::White => Paint::White, Color::Indexed(i) => Paint::Indexed(i),
        Color::Rgb(r, g, b) => Paint::Rgb(r, g, b),
    });
}

/// Writes a glyph with a style into the cell at `(x, y)`. The foreground of
/// the style, where it has one, is explicit.
pub(crate) fn write_cell(
    buf: &mut ratatui::buffer::Buffer,
    x: u16,
    y: u16,
    glyph: char,
    style: Style,
)
    requires
        buffer_cells(*old(buf)).dom().contains((x as int, y as int)),
        style.fg is Some ==> style.fg.unwrap() is Rgb,
    ensures
        buffer_area(*final(buf)) == buffer_area(*old(buf)),
        buffer_cells(*final(buf)) == buffer_cells(*old(buf)).insert(
            (x as int, y as int),
            stamped(buffer_cells(*old(buf))[(x as int, y as int)], glyph, style),
        ),
        grid_wf(*old(buf)) ==> grid_wf(*final(buf)),
{
    let fg = match style.fg {
        Some(color) => Some(color_to_rgb(color)),
        None => None,
    };
    put_glyph(buf, x, y, glyph, fg, style.add_modifier, style.sub_modifier);
    if let Some(bg) = style.bg {
        put_background(buf, x, y, bg);
    }
    proof {
        let before = buffer_cells(*old(buf));
        let after = buffer_cells(*buf);
        let p = (x as int, y as int);
        assert(after =~= before.insert(p, stamped(before[p], glyph, style)));
        assert(after.dom() =~= before.dom());
    }
}

} // verus!
