//! Decoder for the farbfeld image format.
//!
//! A farbfeld file is the eight ASCII bytes `farbfeld`, the width and the
//! height as big-endian 32-bit numbers, and then `width * height` pixels in
//! row-major order, each of them four big-endian 16-bit channels: red,
//! green, blue, alpha.
//!
//! [`decode`] turns such bytes into an [`Image`]; [`pack_image`] reduces an
//! image to one number per pixel for a frame buffer.

pub mod bytes;
pub mod decoder;
pub mod display;
pub mod format;
pub mod image;
pub mod reader;

pub use bytes::{u16_be, u32_be};
pub use decoder::{decode, read_header, read_image_data, read_u16, read_u32};
pub use display::{pack_image, pack_pixel};
pub use image::{DecodeError, Image, Pixel};
pub use reader::Reader;
