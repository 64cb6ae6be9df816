//! The chart and its configuration.

use vstd::prelude::*;
use crate::style::Style;

verus! {

/// How a column is drawn.
#[derive(Debug, Clone, Copy, PartialEq, Eq, Default)]
pub enum WaveformMode {
    /// Four sub-units to the cell, drawn with the left dot column of the
    /// Braille patterns.
    #[default]
    HighResBraille,
    /// One unit to the cell, drawn with the left half block.
    UltraThinBlock,
}

/// A chart of two sample series around a shared centre row. The first
/// series grows upwards from the centre, the second downwards. The newest
/// sample of a series is its last.
pub struct WaveformWidget<'a> {
    /// How columns are drawn.
    pub mode: WaveformMode,
    /// The samples of the upper polarity.
    pub top_data: &'a [i64],
    /// The style of the upper polarity.
    pub top_style: Style,
    /// The samples of the lower polarity.
    pub bottom_data: &'a [i64],
    /// The style of the lower polarity.
    pub bottom_style: Style,
    /// Whether older columns are dimmed.
    pub fade_effect: bool,
    /// Whether rows away from the centre are dimmed.
    pub gradient_effect: bool,
    /// The sample of the upper series that fills its polarity.
    pub top_max: i64,
    /// The sample of the lower series that fills its polarity.
    pub bottom_max: i64,
}

impl<'a> WaveformWidget<'a> {
    /// Both maxima are positive.
    pub open spec fn wf(self) -> bool {
        self.top_max > 0 && self.bottom_max > 0
    }

    /// A chart of the two series with the defaults: the high-resolution
    /// mode, plain styles, no effect, and both maxima one.
    pub fn new(top_data: &'a [i64], bottom_data: &'a [i64]) -> (widget: Self)
        ensures
            widget.top_data@ == top_data@,
            widget.bottom_data@ == bottom_data@,
            widget.mode == WaveformMode::HighResBraille,
            !widget.fade_effect,
            !widget.gradient_effect,
            widget.top_style == Style::plain(),
            widget.bottom_style == Style::plain(),
            widget.top_max == 1,
            widget.bottom_max == 1,
            widget.wf(),
    {
        Self {
            top_data,
            bottom_data,
            mode: WaveformMode::HighResBraille,
            fade_effect: false,
            gradient_effect: false,
            top_style: Style::new(),
            bottom_style: Style::new(),
            top_max: 1,
            bottom_max: 1,
        }
    }

    /// The same chart drawn in `mode`.
    pub fn mode(self, mode: WaveformMode) -> (widget: Self)
        ensures
            widget == (Self { mode, ..self }),
    {
        let mut widget = self;
        widget.mode = mode;
        widget
    }

    /// The same chart with `style` for the upper polarity.
    pub fn top_style(self, style: Style) -> (widget: Self)
        ensures
            widget == (Self { top_style: style, ..self }),
    {
        let mut widget = self;
        widget.top_style = style;
        widget
    }

    /// The same chart with `style` for the lower polarity.
    pub fn bottom_style(self, style: Style) -> (widget: Self)
        ensures
            widget == (Self { bottom_style: style, ..self }),
    {
        let mut widget = self;
        widget.bottom_style = style;
        widget
    }

    /// The same chart with the fade switched on or off.
    pub fn fade_effect(self, enable: bool) -> (widget: Self)
        ensures
            widget == (Self { fade_effect: enable, ..self }),
    {
        let mut widget = self;
        widget.fade_effect = enable;
        widget
    }

    /// The same chart with the gradient switched on or off.
    pub fn gradient_effect(self, enable: bool) -> (widget: Self)
        ensures
            widget == (Self { gradient_effect: enable, ..self }),
    {
        let mut widget = self;
        widget.gradient_effect = enable;
        widget
    }

    /// The same chart with `max` as the sample that fills the upper
    /// polarity.
    pub fn top_max(self, max: i64) -> (widget: Self)
        requires
            max > 0,
        ensures
            widget == (Self { top_max: max, ..self }),
            self.wf() ==> widget.wf(),
    {
        let mut widget = self;
        widget.top_max = max;
        widget
    }

    /// The same chart with `max` as the sample that fills the lower
    /// polarity.
    pub fn bottom_max(self, max: i64) -> (widget: Self)
        requires
            max > 0,
        ensures
            widget == (Self { bottom_max: max, ..self }),
            self.wf() ==> widget.wf(),
    {
        let mut widget = self;
        widget.bottom_max = max;
        widget
    }
}

} // verus!
