//! Display raster images in a terminal as rows of coloured half-block glyphs.
//!
//! One character cell shows two vertically stacked pixels: the upper pixel
//! paints the upper half of the cell and the lower pixel the lower half.
//! [`resize`] fits an image to a region measured in cells, and [`render`]
//! turns an image into the bytes that draw it.
pub mod config;
pub mod raster;
pub mod render;
pub mod resize;
pub mod scale;

pub use config::{Config, TerminalSize};
pub use raster::Image;
pub use render::{render, render_image};
pub use resize::{resizable, resize};
