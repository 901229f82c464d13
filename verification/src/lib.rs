//! Recognition of file formats embedded in binary blobs: byte-layout
//! decoding, header validation, extraction into a path-safe sandbox.

pub mod common;
pub mod endian;
pub mod extractors;
pub mod json;
pub mod structures;
