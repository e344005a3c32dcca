//! Metadata of JPEG images: pixel dimensions from the frame header and, where
//! an Exif block is present, orientation, timestamp and camera make and model.
//!
//! Every function works on bytes already in memory. The contracts are stated
//! over `Seq<u8>` models of the stream, so the result of a decode is pinned
//! down by the spec functions of each module.

pub mod error;
pub mod endian;
pub mod tag;
pub mod ifd;
pub mod tiff;
pub mod metadata;
pub mod laws;

pub use crate::error::{Error, Malformed};
pub use crate::metadata::{Dimensions, Metadata, Orientation};
