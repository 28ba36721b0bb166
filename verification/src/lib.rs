//! Codec for a container format that stores raster images as hexadecimal text.

pub mod bridge;
pub mod decoder;
pub mod encoder;
pub mod error;
pub mod header;
pub mod hex;
pub mod laws;
pub mod pixel_buffer;
pub mod viewer;
