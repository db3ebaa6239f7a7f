//! Verified core of a small Monte-Carlo path tracer.
//!
//! The geometry and shading work on `f32` values and live with the program
//! around this library; what is decided or encoded on plain values lives here:
//! the text raster format, the order in which pixels are produced, the
//! closest-hit choice over a scene, the root policy of a sphere test and the
//! bounded light-transport loop.
pub mod integrator;
pub mod ppm;
pub mod scan;
pub mod scene;

pub use integrator::{Bounce, Path, Shade, Step};
pub use ppm::{channel_level, header, pixel_line};
pub use scan::pixel_at;
pub use scene::{nearest_hit, pick_root, HittableList, Root};
