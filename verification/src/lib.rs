//! Transcoding of a raster image into colored text art.
//!
//! The library turns a grid of 16-bit RGB pixels into a block of text
//! (one two-character glyph pair per pixel, one line per pixel row) together
//! with a list of color ranges: half-open character-offset intervals, each
//! carrying the `#rrggbb` color of its pixel.

pub mod color;
pub mod prompt;
pub mod transcode;
