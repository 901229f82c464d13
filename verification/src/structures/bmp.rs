//! The file header of a Windows bitmap, and the size of the DIB header that
//! follows it.

use crate::endian::{le_value, read_u32_le};
use crate::structures::common::StructureError;
use vstd::prelude::*;

verus! {

/// The fields of a bitmap file header that later checks need.
#[derive(Debug, Default, Clone, Copy, PartialEq, Eq)]
pub struct BMPFileHeader {
    pub size: usize,
    pub bitmap_bits_offset: usize,
}

/// The length of a bitmap file header: a two-byte type, the four-byte file
/// size, two reserved two-byte words and the four-byte offset of the pixels.
pub const BMP_FILE_HEADER_SIZE: usize = 14;

/// The bitmap file header at the start of `data`, if there is a valid one:
/// neither the file size nor the offset of the pixel data may be zero or
/// reach beyond the data.
pub open spec fn bmp_file_header(data: Seq<u8>) -> Option<BMPFileHeader> {
    if data.len() >= BMP_FILE_HEADER_SIZE {
        let size = le_value(data.subrange(2, 6));
        let bits_offset = le_value(data.subrange(10, 14));
        if 0 < size <= data.len() && 0 < bits_offset <= data.len() {
            Some(BMPFileHeader { size: size as usize, bitmap_bits_offset: bits_offset as usize })
        } else {
            None
        }
    } else {
        None
    }
}

/// Parses a bitmap file header.
pub fn parse_bmp_file_header(bmp_data: &[u8]) -> (result: Result<BMPFileHeader, StructureError>)
    ensures
        result == match bmp_file_header(bmp_data@) {
            Some(header) => Ok::<BMPFileHeader, StructureError>(header),
            None => Err(StructureError),
        },
{
    let bmp_data_size = bmp_data.len();
    if bmp_data_size < BMP_FILE_HEADER_SIZE {
        return Err(StructureError);
    }
    let bf_size = read_u32_le(bmp_data, 2) as usize;
    let bf_off_bits = read_u32_le(bmp_data, 10) as usize;

    // The BMP file size cannot be bigger than the data
    if bmp_data_size < bf_size {
        return Err(StructureError);
    }
    // The file size cannot be 0
    if bf_size == 0 {
        return Err(StructureError);
    }
    // The offset cannot be 0
    if bf_off_bits == 0 {
        return Err(StructureError);
    }
    // The offset cannot be bigger than the file
    if bf_off_bits > bmp_data_size {
        return Err(StructureError);
    }
    Ok(BMPFileHeader { size: bf_size, bitmap_bits_offset: bf_off_bits })
}

/// Whether `size` is the size of one of the known DIB headers:
/// BITMAPCOREHEADER, BITMAPINFOHEADER, BITMAPV4HEADER or BITMAPV5HEADER.
pub open spec fn is_dib_header_size(size: nat) -> bool {
    size == 12 || size == 40 || size == 108 || size == 124
}

/// The size that a DIB header at the start of `data` reports, if it is one
/// of the known sizes.
pub open spec fn dib_header_size(data: Seq<u8>) -> Option<usize> {
    if data.len() >= 4 && is_dib_header_size(le_value(data.subrange(0, 4))) {
        Some(le_value(data.subrange(0, 4)) as usize)
    } else {
        None
    }
}

/// Reads the size of the DIB header, which tells the header's kind, and
/// checks it against the known kinds.
pub fn get_dib_header_size(bmp_data: &[u8]) -> (result: Result<usize, StructureError>)
    ensures
        result == match dib_header_size(bmp_data@) {
            Some(size) => Ok::<usize, StructureError>(size),
            None => Err(StructureError),
        },
{
    if bmp_data.len() < 4 {
        return Err(StructureError);
    }
    let header_size = read_u32_le(bmp_data, 0);
    if header_size == 12 || header_size == 40 || header_size == 108 || header_size == 124 {
        Ok(header_size as usize)
    } else {
        Err(StructureError)
    }
}

} // verus!
