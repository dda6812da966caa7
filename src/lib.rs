//! A small ray-casting rasterizer's integer core: the pixel grid, its
//! plain-text encoding, and the per-pixel raster loop.
pub mod image_writer;
pub mod ppm;
pub mod raster;
