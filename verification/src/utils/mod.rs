//! Decimal text, the image writer, and the order of a render.

pub mod decimal;
pub mod image;
pub mod raster;
