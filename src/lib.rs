//! Contour tracing of black-on-white line art with a 2x2 marching-squares walker.
//!
//! A raster is binarised into ink samples, the samples are grouped into a padded
//! grid of 2x2 cells, and a walker follows the boundary between ink and
//! background from the first cell that lies on it.

pub mod cell;
pub mod raster;
pub mod grid;
pub mod trace;
pub mod render;
pub mod laws;
