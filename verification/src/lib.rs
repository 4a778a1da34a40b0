//! The core of a small ray caster: the text of the PPM file that it writes,
//! and the order in which it visits the pixels of the image.
//!
//! The geometry and the shading work in floating point and stay with the
//! program that uses this library. The program hands each pixel's colour over
//! as three bytes, and sends the bytes of the file on to where they go.

pub mod utils;
