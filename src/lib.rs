//! A small 2D raster compositing core.
pub mod substrate;
