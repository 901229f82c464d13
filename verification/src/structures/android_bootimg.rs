//! The header of an Android boot image.

use crate::endian::{le_value, read_u32_le};
use crate::structures::common::StructureError;
use vstd::prelude::*;

verus! {

/// The fields of an Android boot image header that are reported.
#[derive(Debug, Default, Clone, Copy, PartialEq, Eq)]
pub struct AndroidBootImageHeader {
    pub kernel_size: u32,
    pub ramdisk_size: u32,
    pub kernel_load_address: u32,
    pub ramdisk_load_address: u32,
}

/// The length of the part of the header that is read: an eight-byte magic
/// and four four-byte fields.
pub const ANDROID_BOOTIMG_HEADER_SIZE: usize = 24;

/// The Android boot image header at the start of `data`. The fields are
/// taken as they are: only data too short to hold them are refused.
pub open spec fn android_bootimg_header(data: Seq<u8>) -> Option<AndroidBootImageHeader> {
    if data.len() >= ANDROID_BOOTIMG_HEADER_SIZE {
        Some(
            AndroidBootImageHeader {
                kernel_size: le_value(data.subrange(8, 12)) as u32,
                kernel_load_address: le_value(data.subrange(12, 16)) as u32,
                ramdisk_size: le_value(data.subrange(16, 20)) as u32,
                ramdisk_load_address: le_value(data.subrange(20, 24)) as u32,
            },
        )
    } else {
        None
    }
}

/// Parses an Android boot image header.
pub fn parse_android_bootimg_header(bootimg_data: &[u8]) -> (result: Result<
    AndroidBootImageHeader,
    StructureError,
>)
    ensures
        result == match android_bootimg_header(bootimg_data@) {
            Some(header) => Ok::<AndroidBootImageHeader, StructureError>(header),
            None => Err(StructureError),
        },
{
    if bootimg_data.len() < ANDROID_BOOTIMG_HEADER_SIZE {
        return Err(StructureError);
    }
    Ok(
        AndroidBootImageHeader {
            kernel_size: read_u32_le(bootimg_data, 8),
            kernel_load_address: read_u32_le(bootimg_data, 12),
            ramdisk_size: read_u32_le(bootimg_data, 16),
            ramdisk_load_address: read_u32_le(bootimg_data, 20),
        },
    )
}

} // verus!
