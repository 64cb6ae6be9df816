//! Drawing one column of one polarity.
//!
//! A column is walked outwards from the centre row: row 0 is the row next
//! to the centre, row 1 the one beyond it, and so on. The upper polarity
//! walks towards the first row of the grid, the lower one away from it.

use vstd::prelude::*;
use crate::effects::{apply_fade, apply_gradient, faded, graded};
use crate::glyphs::{
    get_thin_braille_fill, get_thin_braille_fill_bottom, thin_fill, thin_fill_bottom, FULL_COLUMN,
    HALF_BLOCK,
};
use crate::grid::{buffer_area, buffer_cells, grid_wf, stamped, write_cell, CellModel, Rect};
use crate::level::{lemma_rounded_bounds, quantize, rounded};
use crate::ratio::Ratio;
use crate::style::Style;
use crate::waveform::WaveformWidget;

verus! {

/// One column of one polarity: where it starts, how far it may reach, how
/// much of it is filled, and what it is drawn with.
pub struct Stroke {
    /// The centre row: the first row of the lower polarity.
    pub center_y: int,
    /// The rows that the polarity has.
    pub rows: int,
    /// The share of the polarity that is filled, between zero and one.
    pub val: Ratio,
    /// Whether this is the upper polarity.
    pub is_top: bool,
    /// The style before any effect.
    pub base: Style,
    /// Whether rows away from the centre are dimmed.
    pub gradient: bool,
    /// The brightness of the column.
    pub fade: Ratio,
}

impl Stroke {
    /// The stroke of a column from its parts.
    pub open spec fn of(
        center_y: u16,
        rows: u16,
        val: Ratio,
        is_top: bool,
        base: Style,
        gradient: bool,
        fade: Ratio,
    ) -> Stroke {
        Stroke { center_y: center_y as int, rows: rows as int, val, is_top, base, gradient, fade }
    }

    /// The grid row of row 0: the row above the centre for the upper
    /// polarity (the centre itself where it is the first row of the grid),
    /// the centre row for the lower one.
    pub open spec fn first_row(self) -> int {
        if self.is_top {
            if self.center_y >= 1 {
                self.center_y - 1
            } else {
                0
            }
        } else {
            self.center_y
        }
    }

    /// The grid row of row `i` of the walk.
    pub open spec fn row_at(self, i: int) -> int {
        if self.is_top {
            self.first_row() - i
        } else {
            self.first_row() + i
        }
    }

    /// The row of the walk that lies on grid row `y`.
    pub open spec fn index_of_row(self, y: int) -> int {
        if self.is_top {
            self.first_row() - y
        } else {
            y - self.first_row()
        }
    }

    /// Row `i` lies on the grid: the upper walk ends at the first grid row,
    /// the lower one at the last coordinate.
    pub open spec fn on_grid(self, i: int) -> bool {
        0 <= i && 0 <= self.row_at(i) <= u16::MAX
    }

    /// The style of row `i`: the gradient first, where it is on, then the
    /// fade.
    pub open spec fn row_style(self, i: int) -> Style {
        if self.gradient {
            faded(graded(self.base, Ratio { num: i as u64, den: self.rows as u64 }), self.fade)
        } else {
            faded(self.base, self.fade)
        }
    }

    /// The sub-units that the column fills in high-resolution mode.
    pub open spec fn units(self) -> int {
        rounded(self.val, 4 * self.rows)
    }

    /// The cells that the column fills in block mode.
    pub open spec fn blocks(self) -> int {
        rounded(self.val, self.rows)
    }

    /// What high-resolution mode writes into row `i`, if anything: a full
    /// glyph while four or more sub-units remain, then one partial glyph
    /// for the rest.
    pub open spec fn braille_at(self, i: int) -> Option<(char, Style)> {
        if self.on_grid(i) && i < self.rows && 4 * i < self.units() {
            Some((braille_glyph(self.units() - 4 * i, self.is_top), self.row_style(i)))
        } else {
            None
        }
    }

    /// What block mode writes into row `i`, if anything: a block into each
    /// of the first `blocks()` rows that lies between the grid rows `lo`
    /// and `hi`.
    pub open spec fn block_at(self, lo: int, hi: int, i: int) -> Option<(char, Style)> {
        if self.on_grid(i) && i < self.blocks() && lo <= self.row_at(i) < hi {
            Some((HALF_BLOCK, self.row_style(i)))
        } else {
            None
        }
    }
}

/// The glyph of a cell with `remaining` sub-units still to draw.
pub open spec fn braille_glyph(remaining: int, is_top: bool) -> char {
    if remaining >= 4 {
        FULL_COLUMN
    } else if is_top {
        thin_fill(remaining)
    } else {
        thin_fill_bottom(remaining)
    }
}

/// A cell after a write, or as it was where nothing is written.
pub open spec fn painted(cell: CellModel, paint: Option<(char, Style)>) -> CellModel {
    match paint {
        Some((glyph, style)) => stamped(cell, glyph, style),
        None => cell,
    }
}

/// Every row that a high-resolution column writes at column `x` has a cell
/// in the grid.
pub open spec fn braille_on_grid(
    cells: Map<(int, int), CellModel>,
    x: int,
    stroke: Stroke,
) -> bool {
    forall|i: int|
        (#[trigger] stroke.braille_at(i)) is Some ==> cells.dom().contains((x, stroke.row_at(i)))
}

/// The grid after the first `done` rows of a high-resolution column at
/// column `x`.
pub open spec fn braille_upto(
    before: Map<(int, int), CellModel>,
    x: int,
    stroke: Stroke,
    done: int,
) -> Map<(int, int), CellModel> {
    Map::new(
        |p: (int, int)| before.dom().contains(p),
        |p: (int, int)|
            if p.0 == x && stroke.index_of_row(p.1) < done {
                painted(before[p], stroke.braille_at(stroke.index_of_row(p.1)))
            } else {
                before[p]
            },
    )
}

/// The grid after a high-resolution column at column `x`.
pub open spec fn braille_column(
    before: Map<(int, int), CellModel>,
    x: int,
    stroke: Stroke,
) -> Map<(int, int), CellModel> {
    Map::new(
        |p: (int, int)| before.dom().contains(p),
        |p: (int, int)|
            if p.0 == x {
                painted(before[p], stroke.braille_at(stroke.index_of_row(p.1)))
            } else {
                before[p]
            },
    )
}

/// Every row that a block column writes at column `x` has a cell in the
/// grid.
pub open spec fn block_on_grid(
    cells: Map<(int, int), CellModel>,
    x: int,
    stroke: Stroke,
    lo: int,
    hi: int,
) -> bool {
    forall|i: int|
        (#[trigger] stroke.block_at(lo, hi, i)) is Some ==> cells.dom().contains(
            (x, stroke.row_at(i)),
        )
}

/// The grid after the first `done` rows of a block column at column `x`.
pub open spec fn block_upto(
    before: Map<(int, int), CellModel>,
    x: int,
    stroke: Stroke,
    lo: int,
    hi: int,
    done: int,
) -> Map<(int, int), CellModel> {
    Map::new(
        |p: (int, int)| before.dom().contains(p),
        |p: (int, int)|
            if p.0 == x && stroke.index_of_row(p.1) < done {
                painted(before[p], stroke.block_at(lo, hi, stroke.index_of_row(p.1)))
            } else {
                before[p]
            },
    )
}

/// The grid after a block column at column `x`, with the rows from `lo` up
/// to `hi` granted.
pub open spec fn block_column(
    before: Map<(int, int), CellModel>,
    x: int,
    stroke: Stroke,
    lo: int,
    hi: int,
) -> Map<(int, int), CellModel> {
    Map::new(
        |p: (int, int)| before.dom().contains(p),
        |p: (int, int)|
            if p.0 == x {
                painted(before[p], stroke.block_at(lo, hi, stroke.index_of_row(p.1)))
            } else {
                before[p]
            },
    )
}

/// A column whose value is one fills each of its rows that lies on the
/// grid: with the full glyph in high-resolution mode, and in block mode with
/// the half block where the row is one of the rows from `lo` up to `hi`.
pub proof fn lemma_full_column_fills_every_row(stroke: Stroke, lo: int, hi: int, i: int)
    requires
        stroke.val.is_one(),
        0 <= i < stroke.rows,
        stroke.on_grid(i),
    ensures
        stroke.braille_at(i) == Some((FULL_COLUMN, stroke.row_style(i))),
        lo <= stroke.row_at(i) < hi ==> stroke.block_at(lo, hi, i) == Some(
            (HALF_BLOCK, stroke.row_style(i)),
        ),
        forall|before: Map<(int, int), CellModel>, x: int|
            before.dom().contains((x, stroke.row_at(i))) ==> (#[trigger] braille_column(
                before,
                x,
                stroke,
            ))[(x, stroke.row_at(i))].symbol == seq![FULL_COLUMN],
        forall|before: Map<(int, int), CellModel>, x: int|
            before.dom().contains((x, stroke.row_at(i))) && lo <= stroke.row_at(i) < hi ==> (
            #[trigger] block_column(before, x, stroke, lo, hi))[(x, stroke.row_at(i))].symbol
                == seq![HALF_BLOCK],
{
    lemma_rounded_bounds(stroke.val, 4 * stroke.rows);
    lemma_rounded_bounds(stroke.val, stroke.rows);
    assert(stroke.index_of_row(stroke.row_at(i)) == i);
}

/// A column whose value is zero writes nothing.
pub proof fn lemma_empty_column_writes_nothing(stroke: Stroke, lo: int, hi: int, i: int)
    requires
        stroke.val.wf(),
        stroke.val.num == 0,
        0 <= stroke.rows,
    ensures
        stroke.braille_at(i) is None,
        stroke.block_at(lo, hi, i) is None,
{
    lemma_rounded_bounds(stroke.val, 4 * stroke.rows);
    lemma_rounded_bounds(stroke.val, stroke.rows);
}

impl<'a> WaveformWidget<'a> {
    /// Draws one column of one polarity in high-resolution mode.
    ///
    /// The value fills `round(val * 4 * max_char_height)` sub-units. Each
    /// row takes four of them as a full glyph; the last row takes what is
    /// left as a partial glyph. Rows beyond are not written, and the walk
    /// ends where the coordinates do: the upper one at row 0, the lower one
    /// at the last row that has a number.
    pub fn render_braille_column(
        &self,
        buf: &mut ratatui::buffer::Buffer,
        x: u16,
        center_y: u16,
        max_char_height: u16,
        val: Ratio,
        is_top: bool,
        base_style: Style,
        use_gradient: bool,
        fade_factor: Ratio,
    )
        requires
            val.at_most_one(),
            fade_factor.wf(),
            braille_on_grid(
                buffer_cells(*old(buf)),
                x as int,
                Stroke::of(
                    center_y,
                    max_char_height,
                    val,
                    is_top,
                    base_style,
                    use_gradient,
                    fade_factor,
                ),
            ),
        ensures
            grid_wf(*old(buf)) ==> grid_wf(*final(buf)),
            buffer_area(*final(buf)) == buffer_area(*old(buf)),
            buffer_cells(*final(buf)) == braille_column(
                buffer_cells(*old(buf)),
                x as int,
                Stroke::of(
                    center_y,
                    max_char_height,
                    val,
                    is_top,
                    base_style,
                    use_gradient,
                    fade_factor,
                ),
            ),
    {
        let ghost stroke = Stroke::of(
            center_y,
            max_char_height,
            val,
            is_top,
            base_style,
            use_gradient,
            fade_factor,
        );
        let ghost before = buffer_cells(*buf);
        let total: u32 = (max_char_height as u32) * 4;
        let needed: u32 = quantize(val, total);
        let mut remaining: u32 = needed;
        let mut y: u16 = if is_top {
            center_y.saturating_sub(1)
        } else {
            center_y
        };
        let mut i: u16 = 0;
        let mut walking: bool = true;
        assert(buffer_cells(*buf) =~= braille_upto(before, x as int, stroke, 0)) by {
            assert forall|p: (int, int)| #[trigger]
                before.dom().contains(p) && p.0 == x && stroke.index_of_row(p.1)
                    < 0 implies stroke.braille_at(stroke.index_of_row(p.1)) is None by {}
        }
        while walking && i < max_char_height && remaining > 0
            invariant
                stroke == Stroke::of(
                    center_y,
                    max_char_height,
                    val,
                    is_top,
                    base_style,
                    use_gradient,
                    fade_factor,
                ),
                val.at_most_one(),
                fade_factor.wf(),
                needed == stroke.units(),
                i <= max_char_height,
                remaining == (if needed > 4 * i {
                    needed - 4 * i
                } else {
                    0
                }),
                walking ==> y == stroke.row_at(i as int),
                !walking ==> !stroke.on_grid(i as int),
                grid_wf(*old(buf)) ==> grid_wf(*buf),
                buffer_area(*buf) == buffer_area(*old(buf)),
                before == buffer_cells(*old(buf)),
                buffer_cells(*buf) == braille_upto(before, x as int, stroke, i as int),
                braille_on_grid(before, x as int, stroke),
            decreases max_char_height - i,
        {
            let glyph = if remaining >= 4 {
                remaining -= 4;
                FULL_COLUMN
            } else {
                let c = if is_top {
                    get_thin_braille_fill(remaining as u8)
                } else {
                    get_thin_braille_fill_bottom(remaining as u8)
                };
                remaining = 0;
                c
            };
            let style = if use_gradient {
                apply_gradient(base_style, Ratio::new(i as u64, max_char_height as u64))
            } else {
                base_style
            };
            let final_style = apply_fade(style, fade_factor);
            proof {
                assert(stroke.on_grid(i as int));
                assert(stroke.braille_at(i as int) == Some((glyph, final_style)));
                assert(before.dom().contains((x as int, stroke.row_at(i as int))));
            }
            let ghost mid = buffer_cells(*buf);
            write_cell(buf, x, y, glyph, final_style);
            proof {
                assert(buffer_cells(*buf) =~= braille_upto(before, x as int, stroke, i + 1)) by {
                    assert forall|p: (int, int)| before.dom().contains(p) implies (
                    #[trigger] buffer_cells(*buf)[p]) == braille_upto(
                        before,
                        x as int,
                        stroke,
                        i + 1,
                    )[p] by {
                        if p == (x as int, y as int) {
                            assert(stroke.index_of_row(p.1) == i);
                        } else {
                            assert(buffer_cells(*buf)[p] == mid[p]);
                            if p.0 == x {
                                assert(stroke.index_of_row(p.1) != i);
                            }
                        }
                    }
                }
            }
            if is_top {
                if y == 0 {
                    walking = false;
                } else {
                    y -= 1;
                }
            } else {
                if y == u16::MAX {
                    walking = false;
                } else {
                    y += 1;
                }
            }
            i += 1;
        }
        proof {
            assert(buffer_cells(*buf) =~= braille_column(before, x as int, stroke)) by {
                assert forall|p: (int, int)| before.dom().contains(p) && p.0 == x
                    && stroke.index_of_row(p.1) >= i implies (#[trigger] stroke.braille_at(
                    stroke.index_of_row(p.1),
                )) is None by {}
            }
        }
    }

    /// Draws one column of one polarity in block mode.
    ///
    /// The value fills `round(val * max_char_height)` cells, each with a
    /// half block. A row outside the rows of `inner_area`, or beyond the
    /// coordinates, is passed over.
    pub fn render_block_column(
        &self,
        buf: &mut ratatui::buffer::Buffer,
        x: u16,
        center_y: u16,
        max_char_height: u16,
        val: Ratio,
        is_top: bool,
        inner_area: Rect,
        base_style: Style,
        use_gradient: bool,
        fade_factor: Ratio,
    )
        requires
            val.at_most_one(),
            fade_factor.wf(),
            block_on_grid(
                buffer_cells(*old(buf)),
                x as int,
                Stroke::of(
                    center_y,
                    max_char_height,
                    val,
                    is_top,
                    base_style,
                    use_gradient,
                    fade_factor,
                ),
                inner_area.y as int,
                inner_area.y_end(),
            ),
        ensures
            grid_wf(*old(buf)) ==> grid_wf(*final(buf)),
            buffer_area(*final(buf)) == buffer_area(*old(buf)),
            buffer_cells(*final(buf)) == block_column(
                buffer_cells(*old(buf)),
                x as int,
                Stroke::of(
                    center_y,
                    max_char_height,
                    val,
                    is_top,
                    base_style,
                    use_gradient,
                    fade_factor,
                ),
                inner_area.y as int,
                inner_area.y_end(),
            ),
    {
        let ghost stroke = Stroke::of(
            center_y,
            max_char_height,
            val,
            is_top,
            base_style,
            use_gradient,
            fade_factor,
        );
        let ghost before = buffer_cells(*buf);
        let needed: u32 = quantize(val, max_char_height as u32);
        let first: u16 = if is_top {
            center_y.saturating_sub(1)
        } else {
            center_y
        };
        let lo: u16 = inner_area.top();
        let hi: u16 = inner_area.bottom();
        let mut i: u16 = 0;
        assert(buffer_cells(*buf) =~= block_upto(before, x as int, stroke, lo as int, hi as int, 0))
            by {
            assert forall|p: (int, int)| #[trigger]
                before.dom().contains(p) && p.0 == x && stroke.index_of_row(p.1)
                    < 0 implies stroke.block_at(lo as int, hi as int, stroke.index_of_row(p.1))
                is None by {}
        }
        while (i as u32) < needed
            invariant
                stroke == Stroke::of(
                    center_y,
                    max_char_height,
                    val,
                    is_top,
                    base_style,
                    use_gradient,
                    fade_factor,
                ),
                val.at_most_one(),
                fade_factor.wf(),
                needed == stroke.blocks(),
                needed <= max_char_height,
                first == stroke.first_row(),
                lo == inner_area.y,
                hi == inner_area.y_end(),
                i <= needed,
                grid_wf(*old(buf)) ==> grid_wf(*buf),
                buffer_area(*buf) == buffer_area(*old(buf)),
                before == buffer_cells(*old(buf)),
                buffer_cells(*buf) == block_upto(
                    before,
                    x as int,
                    stroke,
                    lo as int,
                    hi as int,
                    i as int,
                ),
                block_on_grid(before, x as int, stroke, lo as int, hi as int),
            decreases needed - i,
        {
            let reachable: bool = if is_top {
                i <= first
            } else {
                i <= u16::MAX - center_y
            };
            let ghost mid = buffer_cells(*buf);
            let ghost mut hit: Option<int> = None;
            if reachable {
                let y: u16 = if is_top {
                    first - i
                } else {
                    center_y + i
                };
                if lo <= y && y < hi {
                    let style = if use_gradient {
                        apply_gradient(base_style, Ratio::new(i as u64, max_char_height as u64))
                    } else {
                        base_style
                    };
                    let final_style = apply_fade(style, fade_factor);
                    proof {
                        assert(stroke.block_at(lo as int, hi as int, i as int) == Some(
                            (HALF_BLOCK, final_style),
                        ));
                        assert(before.dom().contains((x as int, y as int)));
                        hit = Some(y as int);
                    }
                    write_cell(buf, x, y, HALF_BLOCK, final_style);
                }
            }
            proof {
                if hit is None {
                    assert(stroke.block_at(lo as int, hi as int, i as int) is None);
                }
                assert(buffer_cells(*buf) =~= block_upto(
                    before,
                    x as int,
                    stroke,
                    lo as int,
                    hi as int,
                    i + 1,
                )) by {
                    assert forall|p: (int, int)| before.dom().contains(p) implies (
                    #[trigger] buffer_cells(*buf)[p]) == block_upto(
                        before,
                        x as int,
                        stroke,
                        lo as int,
                        hi as int,
                        i + 1,
                    )[p] by {
                        if hit is Some && p == (x as int, hit.unwrap()) {
                            assert(stroke.index_of_row(p.1) == i);
                        } else {
                            assert(buffer_cells(*buf)[p] == mid[p]);
                            if p.0 == x && stroke.index_of_row(p.1) == i {
                                assert(stroke.row_at(i as int) == p.1);
                            }
                        }
                    }
                }
            }
            i += 1;
        }
        proof {
            assert(buffer_cells(*buf) =~= block_column(
                before,
                x as int,
                stroke,
                lo as int,
                hi as int,
            )) by {
                assert forall|p: (int, int)| before.dom().contains(p) && p.0 == x
                    && stroke.index_of_row(p.1) >= i implies (#[trigger] stroke.block_at(
                    lo as int,
                    hi as int,
                    stroke.index_of_row(p.1),
                )) is None by {}
            }
        }
    }
}

} // verus!
