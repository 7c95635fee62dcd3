//! Verified core of an offline path tracer: render configuration, the
//! depth-bounded path state machine, and the RGBA output grid.

pub mod grid;
pub mod path;
pub mod settings;

pub use grid::{pixel_position, PixelGrid, RgbaPicture, Rgb8};
pub use path::{Bounce, PathBudget, PathEnd};
pub use settings::{ConfigError, RenderSettings};
