//! Box-and-whisker summaries of a sample, and the geometry of the figure that
//! draws one, with outliers taken out by Tukey's fences.
//!
//! Sample values are integers; every derived statistic is held exactly, as a
//! whole number of hundredths of a sample unit.

pub mod draw;
pub mod element;
pub mod orient;
pub mod stats;

pub use draw::{DrawRun, Primitive, ShapeStyle};
pub use element::{BoxplotOutliers, DEFAULT_WIDTH};
pub use orient::{AxisValue, Orientation};
pub use stats::{percentile_of_sorted, BoxplotData};
