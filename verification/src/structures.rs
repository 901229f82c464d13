//! Byte layouts: the declarative decoder and the per-format header validators.

pub mod android_bootimg;
pub mod autel;
pub mod bmp;
pub mod common;
pub mod linux;
pub mod lzfse;
pub mod lzma;
