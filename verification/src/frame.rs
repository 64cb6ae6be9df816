//! Drawing the whole chart into a region of the grid.

use vstd::prelude::*;
use crate::color::{rgb_of, Color};
use crate::column::{
    block_column, braille_column, lemma_empty_column_writes_nothing,
    lemma_full_column_fills_every_row, painted, Stroke,
};
use crate::effects::{
    fade_factor, fade_of, lemma_fade_monotone, lemma_scale_by_one, lemma_scale_monotone,
};
use crate::grid::{buffer_area, buffer_cells, grid_wf, lemma_stamped_twice, CellModel, Rect};
use crate::glyphs::{FULL_COLUMN, HALF_BLOCK};
use crate::level::{lemma_rounded_bounds, normalize, normalized};
use crate::ratio::Ratio;
use crate::waveform::{WaveformMode, WaveformWidget};

verus! {

/// The centre row of a region: the first row of its lower half.
pub open spec fn center_row(inner: Rect) -> int {
    inner.y + inner.height / 2
}

/// The rows that each polarity has in a region.
pub open spec fn polarity_rows(inner: Rect) -> int {
    inner.height as int / 2
}

impl<'a> WaveformWidget<'a> {
    /// The samples that both series have.
    pub open spec fn common_len(self) -> int {
        if self.top_data@.len() <= self.bottom_data@.len() {
            self.top_data@.len() as int
        } else {
            self.bottom_data@.len() as int
        }
    }

    /// The columns of a region `width` wide that show a sample: all of
    /// them, or as many as both series have samples.
    pub open spec fn shown(self, width: int) -> int {
        if self.common_len() <= width {
            self.common_len()
        } else {
            width
        }
    }

    /// The column `column` of a region `width` wide shows a sample: the
    /// samples stand at the right edge, and the columns to the left of them
    /// stay empty.
    pub open spec fn visible(self, width: int, column: int) -> bool {
        width - self.shown(width) <= column < width
    }

    /// The sample that column `column` shows: the last column shows the
    /// last sample that both series have, the column before it the sample
    /// before, and so on.
    pub open spec fn sample_index(self, width: int, column: int) -> int {
        self.common_len() - width + column
    }

    /// The fade of a column: its factor where the effect is on, else one.
    pub open spec fn fade_at(self, width: int, column: int) -> Ratio {
        if self.fade_effect {
            fade_of(column, width)
        } else {
            Ratio { num: 1, den: 1 }
        }
    }

    /// The upper stroke of a visible column.
    pub open spec fn top_stroke(self, inner: Rect, column: int) -> Stroke {
        Stroke {
            center_y: center_row(inner),
            rows: polarity_rows(inner),
            val: normalized(
                self.top_data@[self.sample_index(inner.width as int, column)],
                self.top_max,
            ),
            is_top: true,
            base: self.top_style,
            gradient: self.gradient_effect,
            fade: self.fade_at(inner.width as int, column),
        }
    }

    /// The lower stroke of a visible column.
    pub open spec fn bottom_stroke(self, inner: Rect, column: int) -> Stroke {
        Stroke {
            center_y: center_row(inner),
            rows: polarity_rows(inner),
            val: normalized(
                self.bottom_data@[self.sample_index(inner.width as int, column)],
                self.bottom_max,
            ),
            is_top: false,
            base: self.bottom_style,
            gradient: self.gradient_effect,
            fade: self.fade_at(inner.width as int, column),
        }
    }

    /// What one stroke writes on the grid row `y`, if anything.
    pub open spec fn stroke_paint(self, inner: Rect, stroke: Stroke, y: int) -> Option<
        (char, crate::style::Style),
    > {
        match self.mode {
            WaveformMode::HighResBraille => stroke.braille_at(stroke.index_of_row(y)),
            WaveformMode::UltraThinBlock => stroke.block_at(
                inner.y as int,
                inner.y + inner.height,
                stroke.index_of_row(y),
            ),
        }
    }

    /// What the upper polarity writes at `(x, y)`, if anything.
    pub open spec fn top_paint(self, inner: Rect, x: int, y: int) -> Option<
        (char, crate::style::Style),
    > {
        if !inner.is_empty() && inner.x <= x && self.visible(inner.width as int, x - inner.x) {
            self.stroke_paint(inner, self.top_stroke(inner, x - inner.x), y)
        } else {
            None
        }
    }

    /// What the lower polarity writes at `(x, y)`, if anything.
    pub open spec fn bottom_paint(self, inner: Rect, x: int, y: int) -> Option<
        (char, crate::style::Style),
    > {
        if !inner.is_empty() && inner.x <= x && self.visible(inner.width as int, x - inner.x) {
            self.stroke_paint(inner, self.bottom_stroke(inner, x - inner.x), y)
        } else {
            None
        }
    }

    /// The cell at `(x, y)` after the chart is drawn into `inner`: the
    /// upper polarity is written first, the lower one after it.
    pub open spec fn frame_cell(self, inner: Rect, cell: CellModel, x: int, y: int) -> CellModel {
        painted(painted(cell, self.top_paint(inner, x, y)), self.bottom_paint(inner, x, y))
    }

    /// The grid after the columns before `done` are drawn into `inner`.
    pub open spec fn frame_upto(
        self,
        inner: Rect,
        before: Map<(int, int), CellModel>,
        done: int,
    ) -> Map<(int, int), CellModel> {
        Map::new(
            |p: (int, int)| before.dom().contains(p),
            |p: (int, int)|
                if p.0 - inner.x < done {
                    self.frame_cell(inner, before[p], p.0, p.1)
                } else {
                    before[p]
                },
        )
    }

    /// The grid after the chart is drawn into `inner`.
    pub open spec fn frame(self, inner: Rect, before: Map<(int, int), CellModel>) -> Map<
        (int, int),
        CellModel,
    > {
        Map::new(
            |p: (int, int)| before.dom().contains(p),
            |p: (int, int)| self.frame_cell(inner, before[p], p.0, p.1),
        )
    }

    /// Draws both series into `inner`, without a frame.
    ///
    /// A region without columns or rows is left alone. Otherwise the last
    /// samples that both series have stand at the right edge, one to the
    /// column, and each column is drawn upwards from the centre row for the
    /// first series and downwards for the second.
    pub fn render_series(&self, inner: Rect, buf: &mut ratatui::buffer::Buffer)
        requires
            self.wf(),
            grid_wf(*old(buf)),
            inner.is_empty() || buffer_area(*old(buf)).encloses(inner),
        ensures
            grid_wf(*final(buf)),
            buffer_area(*final(buf)) == buffer_area(*old(buf)),
            buffer_cells(*final(buf)) == self.frame(inner, buffer_cells(*old(buf))),
    {
        let ghost before = buffer_cells(*buf);
        if inner.height < 1 || inner.width < 1 {
            assert(buffer_cells(*buf) =~= self.frame(inner, before));
            return ;
        }
        let center_y: u16 = inner.top() + inner.height / 2;
        let max_char_height: u16 = inner.height / 2;
        let data_len: usize = if self.top_data.len() <= self.bottom_data.len() {
            self.top_data.len()
        } else {
            self.bottom_data.len()
        };
        let width: usize = inner.width as usize;
        let shown: usize = if data_len <= width {
            data_len
        } else {
            width
        };
        let start: u16 = (width - shown) as u16;
        let skipped: usize = data_len - shown;
        let mut column: u16 = start;
        assert(buffer_cells(*buf) =~= self.frame_upto(inner, before, start as int));
        while column < inner.width
            invariant
                self.wf(),
                !inner.is_empty(),
                buffer_area(*old(buf)).encloses(inner),
                center_y == center_row(inner),
                max_char_height == polarity_rows(inner),
                data_len == self.common_len(),
                shown == self.shown(inner.width as int),
                start == inner.width - shown,
                skipped == data_len - shown,
                start <= column <= inner.width,
                grid_wf(*buf),
                buffer_area(*buf) == buffer_area(*old(buf)),
                before == buffer_cells(*old(buf)),
                buffer_cells(*buf) == self.frame_upto(inner, before, column as int),
            decreases inner.width - column,
        {
            let x: u16 = inner.x + column;
            let data_index: usize = skipped + (column - start) as usize;
            let top_val = normalize(self.top_data[data_index], self.top_max);
            let bottom_val = normalize(self.bottom_data[data_index], self.bottom_max);
            let fade = if self.fade_effect {
                fade_factor(column, inner.width)
            } else {
                Ratio::one()
            };
            let ghost top = self.top_stroke(inner, column as int);
            let ghost bottom = self.bottom_stroke(inner, column as int);
            let ghost mid = buffer_cells(*buf);
            proof {
                assert(self.visible(inner.width as int, column as int));
                assert(data_index == self.sample_index(inner.width as int, column as int));
                lemma_column_on_grid(*buf, inner, x as int);
            }
            match self.mode {
                WaveformMode::HighResBraille => {
                    proof {
                        lemma_stroke_rows_in_region(inner, top);
                        lemma_stroke_rows_in_region(inner, bottom);
                    }
                    self.render_braille_column(
                        buf,
                        x,
                        center_y,
                        max_char_height,
                        top_val,
                        true,
                        self.top_style,
                        self.gradient_effect,
                        fade,
                    );
                    self.render_braille_column(
                        buf,
                        x,
                        center_y,
                        max_char_height,
                        bottom_val,
                        false,
                        self.bottom_style,
                        self.gradient_effect,
                        fade,
                    );
                    assert(buffer_cells(*buf) == braille_column(
                        braille_column(mid, x as int, top),
                        x as int,
                        bottom,
                    ));
                },
                WaveformMode::UltraThinBlock => {
                    self.render_block_column(
                        buf,
                        x,
                        center_y,
                        max_char_height,
                        top_val,
                        true,
                        inner,
                        self.top_style,
                        self.gradient_effect,
                        fade,
                    );
                    self.render_block_column(
                        buf,
                        x,
                        center_y,
                        max_char_height,
                        bottom_val,
                        false,
                        inner,
                        self.bottom_style,
                        self.gradient_effect,
                        fade,
                    );
                    assert(buffer_cells(*buf) == block_column(
                        block_column(mid, x as int, top, inner.y as int, inner.y_end()),
                        x as int,
                        bottom,
                        inner.y as int,
                        inner.y_end(),
                    ));
                },
            }
            proof {
                assert(buffer_cells(*buf) =~= self.frame_upto(inner, before, column + 1)) by {
                    assert forall|p: (int, int)| before.dom().contains(p) implies (
                    #[trigger] buffer_cells(*buf)[p]) == self.frame_upto(
                        inner,
                        before,
                        column + 1,
                    )[p] by {
                        if p.0 == x {
                            assert(mid[p] == before[p]);
                            assert(self.top_paint(inner, p.0, p.1) == self.stroke_paint(
                                inner,
                                top,
                                p.1,
                            ));
                            assert(self.bottom_paint(inner, p.0, p.1) == self.stroke_paint(
                                inner,
                                bottom,
                                p.1,
                            ));
                        } else {
                            assert(buffer_cells(*buf)[p] == mid[p]);
                        }
                    }
                }
            }
            column += 1;
        }
        proof {
            assert(buffer_cells(*buf) =~= self.frame(inner, before)) by {
                assert forall|p: (int, int)|
                    before.dom().contains(p) && p.0 - inner.x >= inner.width implies (
                #[trigger] self.frame_cell(inner, before[p], p.0, p.1)) == before[p] by {}
            }
        }
    }
}

/// The grid `after` has the positions of `before` and differs from it only
/// inside `area`.
pub open spec fn same_outside(
    area: Rect,
    before: Map<(int, int), CellModel>,
    after: Map<(int, int), CellModel>,
) -> bool {
    &&& after.dom() == before.dom()
    &&& forall|x: int, y: int|
        before.dom().contains((x, y)) && !area.covers(x, y) ==> #[trigger] after[(x, y)]
            == before[(x, y)]
}

/// The region that a chart is drawn into: all of `area`, or the part of
/// `area` that lies in what a frame has left free.
pub open spec fn working_region(area: Rect, free: Option<Rect>) -> Rect {
    match free {
        Some(inner) => inner.overlap(area),
        None => area,
    }
}

impl<'a> WaveformWidget<'a> {
    /// Draws the chart into `area`, or into the interior of a frame that
    /// the caller has drawn into `area`.
    ///
    /// `free` is what the frame leaves free, and `None` where there is no
    /// frame. Whatever it is, the chart is kept to `area`: both series are
    /// drawn into the part of `free` that lies in `area`, and no cell
    /// outside `area` changes.
    pub fn render(self, area: Rect, free: Option<Rect>, buf: &mut ratatui::buffer::Buffer)
        requires
            self.wf(),
            grid_wf(*old(buf)),
            area.is_empty() || buffer_area(*old(buf)).encloses(area),
        ensures
            grid_wf(*final(buf)),
            buffer_area(*final(buf)) == buffer_area(*old(buf)),
            buffer_cells(*final(buf)) == self.frame(
                working_region(area, free),
                buffer_cells(*old(buf)),
            ),
            same_outside(area, buffer_cells(*old(buf)), buffer_cells(*final(buf))),
    {
        let ghost before = buffer_cells(*buf);
        let inner_area = match free {
            Some(inner) => inner.clipped_to(area),
            None => area,
        };
        self.render_series(inner_area, buf);
        proof {
            assert(buffer_cells(*buf).dom() =~= before.dom());
            assert forall|x: int, y: int|
                before.dom().contains((x, y)) && !area.covers(x, y) implies (
            #[trigger] buffer_cells(*buf)[(x, y)]) == before[(x, y)] by {
                assert(!inner_area.holds(x, y));
                self.lemma_frame_stays_inside(inner_area, before[(x, y)], x, y);
            }
        }
    }

    /// The chart changes no cell outside the region it is drawn into.
    pub proof fn lemma_frame_stays_inside(self, inner: Rect, cell: CellModel, x: int, y: int)
        requires
            !inner.holds(x, y),
        ensures
            self.top_paint(inner, x, y) is None,
            self.bottom_paint(inner, x, y) is None,
            self.frame_cell(inner, cell, x, y) == cell,
    {
        if !inner.is_empty() && inner.x <= x && self.visible(inner.width as int, x - inner.x) {
            let top = self.top_stroke(inner, x - inner.x);
            let bottom = self.bottom_stroke(inner, x - inner.x);
            lemma_stroke_rows_in_region(inner, top);
            lemma_stroke_rows_in_region(inner, bottom);
            assert(top.row_at(top.index_of_row(y)) == y);
            assert(bottom.row_at(bottom.index_of_row(y)) == y);
        }
    }
}

/// The grid row `y` is a row of the upper polarity of a region.
pub open spec fn in_top_rows(inner: Rect, y: int) -> bool {
    center_row(inner) - polarity_rows(inner) <= y < center_row(inner)
}

/// The grid row `y` is a row of the lower polarity of a region.
pub open spec fn in_bottom_rows(inner: Rect, y: int) -> bool {
    center_row(inner) <= y < center_row(inner) + polarity_rows(inner)
}

impl<'a> WaveformWidget<'a> {
    /// The glyph of a cell that is filled whole.
    pub open spec fn full_glyph(self) -> char {
        match self.mode {
            WaveformMode::HighResBraille => FULL_COLUMN,
            WaveformMode::UltraThinBlock => HALF_BLOCK,
        }
    }

    /// The two polarities never write into the same cell.
    pub proof fn lemma_polarities_apart(self, inner: Rect, x: int, y: int)
        requires
            self.wf(),
        ensures
            self.top_paint(inner, x, y) is None || self.bottom_paint(inner, x, y) is None,
            self.top_paint(inner, x, y) is Some ==> in_top_rows(inner, y),
            self.bottom_paint(inner, x, y) is Some ==> in_bottom_rows(inner, y),
    {
        if !inner.is_empty() && inner.x <= x && self.visible(inner.width as int, x - inner.x) {
            let top = self.top_stroke(inner, x - inner.x);
            let bottom = self.bottom_stroke(inner, x - inner.x);
            lemma_rounded_bounds(top.val, top.rows as int);
            lemma_rounded_bounds(bottom.val, bottom.rows as int);
            assert(top.row_at(top.index_of_row(y)) == y);
            assert(bottom.row_at(bottom.index_of_row(y)) == y);
        }
    }

    /// Drawing the same chart into the same region a second time changes
    /// nothing more.
    pub proof fn lemma_frame_idempotent(self, inner: Rect, before: Map<(int, int), CellModel>)
        requires
            self.wf(),
        ensures
            self.frame(inner, self.frame(inner, before)) == self.frame(inner, before),
    {
        let once = self.frame(inner, before);
        assert forall|p: (int, int)| before.dom().contains(p) implies #[trigger] self.frame(
            inner,
            once,
        )[p] == once[p] by {
            self.lemma_polarities_apart(inner, p.0, p.1);
            match self.top_paint(inner, p.0, p.1) {
                Some((glyph, style)) => lemma_stamped_twice(before[p], glyph, style),
                None => {},
            }
            match self.bottom_paint(inner, p.0, p.1) {
                Some((glyph, style)) => lemma_stamped_twice(before[p], glyph, style),
                None => {},
            }
        }
        assert(self.frame(inner, once) =~= once);
    }

    /// A series without a sample above zero writes no glyph: where that
    /// holds of the upper series the upper polarity stays empty, where it
    /// holds of the lower series the lower one does, and where it holds of
    /// both the grid is left as it was.
    pub proof fn lemma_zero_series_write_nothing(
        self,
        inner: Rect,
        before: Map<(int, int), CellModel>,
    )
        requires
            self.wf(),
        ensures
            (forall|i: int| 0 <= i < self.top_data@.len() ==> self.top_data@[i] <= 0) ==> forall|
                x: int,
                y: int,
            | (#[trigger] self.top_paint(inner, x, y)) is None,
            (forall|i: int| 0 <= i < self.bottom_data@.len() ==> self.bottom_data@[i] <= 0)
                ==> forall|x: int, y: int| (#[trigger] self.bottom_paint(inner, x, y)) is None,
            (forall|i: int| 0 <= i < self.top_data@.len() ==> self.top_data@[i] <= 0) && (forall|
                i: int,
            |
                0 <= i < self.bottom_data@.len() ==> self.bottom_data@[i] <= 0) ==> self.frame(
                inner,
                before,
            ) == before,
    {
        if forall|i: int| 0 <= i < self.top_data@.len() ==> self.top_data@[i] <= 0 {
            assert forall|x: int, y: int| (#[trigger] self.top_paint(inner, x, y)) is None by {
                let column = x - inner.x;
                if !inner.is_empty() && inner.x <= x && self.visible(inner.width as int, column) {
                    let stroke = self.top_stroke(inner, column);
                    lemma_empty_column_writes_nothing(
                        stroke,
                        inner.y as int,
                        inner.y + inner.height,
                        stroke.index_of_row(y),
                    );
                }
            }
        }
        if forall|i: int| 0 <= i < self.bottom_data@.len() ==> self.bottom_data@[i] <= 0 {
            assert forall|x: int, y: int| (#[trigger] self.bottom_paint(inner, x, y)) is None by {
                let column = x - inner.x;
                if !inner.is_empty() && inner.x <= x && self.visible(inner.width as int, column) {
                    let stroke = self.bottom_stroke(inner, column);
                    lemma_empty_column_writes_nothing(
                        stroke,
                        inner.y as int,
                        inner.y + inner.height,
                        stroke.index_of_row(y),
                    );
                }
            }
        }
        if (forall|i: int| 0 <= i < self.top_data@.len() ==> self.top_data@[i] <= 0) && (forall|
            i: int,
        | 0 <= i < self.bottom_data@.len() ==> self.bottom_data@[i] <= 0) {
            assert forall|p: (int, int)| before.dom().contains(p) implies #[trigger] self.frame(
                inner,
                before,
            )[p] == before[p] by {
                assert(self.top_paint(inner, p.0, p.1) is None);
                assert(self.bottom_paint(inner, p.0, p.1) is None);
            }
            assert(self.frame(inner, before) =~= before);
        }
    }

    /// A series with every sample at or above its maximum fills every row
    /// of its polarity, in each column that shows a sample, with the full
    /// glyph of the mode.
    pub proof fn lemma_full_series_fill_every_row(
        self,
        inner: Rect,
        cell: CellModel,
        x: u16,
        y: u16,
    )
        requires
            self.wf(),
            inner.x <= x,
            self.visible(inner.width as int, x - inner.x),
        ensures
            (forall|i: int| 0 <= i < self.top_data@.len() ==> self.top_data@[i] >= self.top_max)
                && in_top_rows(inner, y as int) ==> self.top_paint(inner, x as int, y as int)
                == Some(
                (
                    self.full_glyph(),
                    self.top_stroke(inner, x - inner.x).row_style(center_row(inner) - 1 - y),
                ),
            ) && self.frame_cell(inner, cell, x as int, y as int).symbol == seq![
                self.full_glyph(),
            ],
            (forall|i: int|
                0 <= i < self.bottom_data@.len() ==> self.bottom_data@[i] >= self.bottom_max)
                && in_bottom_rows(inner, y as int) ==> self.bottom_paint(
                inner,
                x as int,
                y as int,
            ) == Some(
                (
                    self.full_glyph(),
                    self.bottom_stroke(inner, x - inner.x).row_style(y - center_row(inner)),
                ),
            ) && self.frame_cell(inner, cell, x as int, y as int).symbol == seq![
                self.full_glyph(),
            ],
    {
        let column = x - inner.x;
        let index = self.sample_index(inner.width as int, column);
        assert(0 <= index < self.common_len());
        let top = self.top_stroke(inner, column);
        let bottom = self.bottom_stroke(inner, column);
        self.lemma_polarities_apart(inner, x as int, y as int);
        if (forall|i: int| 0 <= i < self.top_data@.len() ==> self.top_data@[i] >= self.top_max)
            && in_top_rows(inner, y as int) {
            assert(top.val.is_one());
            lemma_full_column_fills_every_row(
                top,
                inner.y as int,
                inner.y + inner.height,
                center_row(inner) - 1 - y,
            );
        }
        if (forall|i: int|
            0 <= i < self.bottom_data@.len() ==> self.bottom_data@[i] >= self.bottom_max)
            && in_bottom_rows(inner, y as int) {
            assert(bottom.val.is_one());
            lemma_full_column_fills_every_row(
                bottom,
                inner.y as int,
                inner.y + inner.height,
                y - center_row(inner),
            );
        }
    }

    /// With the gradient off, a glyph written in the right half of the
    /// region, and any glyph written while the fade is off, carries the
    /// channels of its polarity's colour unchanged, as an explicit colour.
    pub proof fn lemma_right_half_at_full_brightness(
        self,
        inner: Rect,
        cell: CellModel,
        x: int,
        y: int,
    )
        requires
            self.wf(),
            !self.gradient_effect,
            !self.fade_effect || 2 * (x - inner.x) >= inner.width,
        ensures
            self.top_paint(inner, x, y) is Some && self.top_style.fg is Some ==> self.frame_cell(
                inner,
                cell,
                x,
                y,
            ).fg == Color::Rgb(
                rgb_of(self.top_style.fg.unwrap()).0,
                rgb_of(self.top_style.fg.unwrap()).1,
                rgb_of(self.top_style.fg.unwrap()).2,
            ),
            self.bottom_paint(inner, x, y) is Some && self.bottom_style.fg is Some
                ==> self.frame_cell(inner, cell, x, y).fg == Color::Rgb(
                rgb_of(self.bottom_style.fg.unwrap()).0,
                rgb_of(self.bottom_style.fg.unwrap()).1,
                rgb_of(self.bottom_style.fg.unwrap()).2,
            ),
    {
        self.lemma_polarities_apart(inner, x, y);
        let fade = self.fade_at(inner.width as int, x - inner.x);
        if self.top_paint(inner, x, y) is Some || self.bottom_paint(inner, x, y) is Some {
            assert(fade.is_one());
            if self.top_style.fg is Some {
                lemma_scale_by_one(self.top_style.fg.unwrap(), fade);
            }
            if self.bottom_style.fg is Some {
                lemma_scale_by_one(self.bottom_style.fg.unwrap(), fade);
            }
        }
    }

    /// With the fade on and the gradient off, of two glyphs that one
    /// polarity writes on the same row the one further right is at least as
    /// bright in every channel.
    pub proof fn lemma_fade_never_falls_rightwards(
        self,
        inner: Rect,
        left: CellModel,
        right: CellModel,
        x1: int,
        x2: int,
        y: int,
    )
        requires
            self.wf(),
            self.fade_effect,
            !self.gradient_effect,
            x1 <= x2,
        ensures
            self.top_paint(inner, x1, y) is Some && self.top_paint(inner, x2, y) is Some
                && self.top_style.fg is Some ==> channels_le(
                self.frame_cell(inner, left, x1, y).fg,
                self.frame_cell(inner, right, x2, y).fg,
            ),
            self.bottom_paint(inner, x1, y) is Some && self.bottom_paint(inner, x2, y) is Some
                && self.bottom_style.fg is Some ==> channels_le(
                self.frame_cell(inner, left, x1, y).fg,
                self.frame_cell(inner, right, x2, y).fg,
            ),
    {
        self.lemma_polarities_apart(inner, x1, y);
        self.lemma_polarities_apart(inner, x2, y);
        let width = inner.width as int;
        if (self.top_paint(inner, x1, y) is Some && self.top_paint(inner, x2, y) is Some) || (
        self.bottom_paint(inner, x1, y) is Some && self.bottom_paint(inner, x2, y) is Some) {
            lemma_fade_monotone(x1 - inner.x, x2 - inner.x, width);
            lemma_fade_monotone(x1 - inner.x, x1 - inner.x, width);
            let low = fade_of(x1 - inner.x, width);
            let high = fade_of(x2 - inner.x, width);
            if self.top_style.fg is Some {
                lemma_scale_monotone(self.top_style.fg.unwrap(), low, high);
            }
            if self.bottom_style.fg is Some {
                lemma_scale_monotone(self.bottom_style.fg.unwrap(), low, high);
            }
        }
    }
}

/// Both colours are explicit, and no channel of the first is above the
/// same channel of the second.
pub open spec fn channels_le(dimmer: Color, brighter: Color) -> bool {
    &&& dimmer is Rgb
    &&& brighter is Rgb
    &&& rgb_of(dimmer).0 <= rgb_of(brighter).0
    &&& rgb_of(dimmer).1 <= rgb_of(brighter).1
    &&& rgb_of(dimmer).2 <= rgb_of(brighter).2
}

/// Every row of a region, at a column of the region, is a position of a
/// whole grid that encloses the region.
pub proof fn lemma_column_on_grid(buf: ratatui::buffer::Buffer, inner: Rect, x: int)
    requires
        grid_wf(buf),
        buffer_area(buf).encloses(inner),
        inner.x <= x < inner.x + inner.width,
    ensures
        forall|y: int|
            inner.y <= y < inner.y + inner.height ==> #[trigger] buffer_cells(buf).dom().contains(
                (x, y),
            ),
        inner.y_end() == inner.y + inner.height,
        inner.x_end() == inner.x + inner.width,
{
    assert forall|y: int| inner.y <= y < inner.y + inner.height implies #[trigger] buffer_cells(
        buf,
    ).dom().contains((x, y)) by {
        assert(buffer_area(buf).covers(x, y));
    }
}

/// A stroke that starts at the centre row of a region and has the rows of
/// one polarity writes only into rows of the region.
pub proof fn lemma_stroke_rows_in_region(inner: Rect, stroke: Stroke)
    requires
        stroke.center_y == center_row(inner),
        stroke.rows == polarity_rows(inner),
    ensures
        forall|i: int|
            (#[trigger] stroke.braille_at(i)) is Some ==> inner.y <= stroke.row_at(i) < inner.y
                + inner.height,
{
}

} // verus!
