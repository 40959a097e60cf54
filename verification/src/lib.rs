//! The verified core of a small stochastic ray tracer: the frame buffer and
//! its pixels, the plain-text image format that a picture is written in, the
//! rule for how deep a ray is followed, and the reading of the command line.
//! Geometry and shading are floating-point arithmetic and are built on top of
//! this crate.

pub mod cli;
pub mod color;
pub mod image;
pub mod ppm;
pub mod radiance;

pub use crate::color::{red, Color};
pub use crate::image::Image;
pub use crate::ppm::write_ppm;
