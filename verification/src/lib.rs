//! Batch image quantization with ordered (Bayer-matrix) dithering.
//!
//! The crate reduces 8-bit RGBA pixel data to a smaller per-channel bit
//! depth, hiding the banding that naive rounding would produce behind a
//! fixed 4x4 dither pattern.  A [`profile::FormatProfile`] selects the
//! target depth of each channel and the treatment of alpha; a
//! [`transform::ImageTransformer`] applies the profile to a whole pixel
//! buffer; the `batch` module plans a batch of files and decides when
//! progress is reported; the `messages` module words the status lines.
//! Decoding, encoding and all other I/O stay outside the crate: callers
//! hand in plain pixel bytes and file names and take plain values back.

pub mod batch;
pub mod dither;
pub mod messages;
pub mod profile;
pub mod text;
pub mod transform;
