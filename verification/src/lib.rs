//! A dual-polarity waveform chart for character grids.
//!
//! Two sample series are drawn around a shared centre row: the first grows
//! upwards, the second downwards. Samples are integers in a unit of the
//! caller's choice, brightness factors are exact ratios, and each function
//! states what it computes or writes.

pub mod color;
pub mod column;
pub mod effects;
pub mod frame;
pub mod glyphs;
pub mod grid;
pub mod level;
pub mod ratio;
pub mod style;
pub mod waveform;

pub use crate::color::Color;
pub use crate::grid::Rect;
pub use crate::ratio::Ratio;
pub use crate::style::Style;
pub use crate::waveform::{WaveformMode, WaveformWidget};
