//! The 13-byte header of a legacy LZMA stream, and the byte that follows it.

use crate::endian::{le_value, read_u32_le, read_u64_le};
use crate::structures::common::StructureError;
use vstd::prelude::*;

verus! {

/// The useful fields of an LZMA header.
#[derive(Debug, Default, Clone, Copy, PartialEq, Eq)]
pub struct LZMAHeader {
    pub properties: u8,
    pub dictionary_size: u32,
    pub decompressed_size: u64,
}

/// The length of an LZMA header: one byte of properties, four of dictionary
/// size and eight of decompressed size.
pub const LZMA_HEADER_SIZE: usize = 13;

/// The length of what is read: the header and the first byte of the
/// compressed data, which is zero in every LZMA stream.
pub const LZMA_PARSED_SIZE: usize = 14;

/// The decompressed size that a streamed LZMA file reports: all ones.
pub const LZMA_STREAM_SIZE: u64 = 0xFFFF_FFFF_FFFF_FFFF;

/// The smallest decompressed size that is taken for real.
pub const MIN_SUPPORTED_DECOMPRESSED_SIZE: u64 = 256;

/// The largest decompressed size that is taken for real.
pub const MAX_SUPPORTED_DECOMPRESSED_SIZE: u64 = 0xFFFF_FFFF;

/// Whether a reported decompressed size is believable: the marker of a
/// stream of unknown size, or a size within the supported range.
pub open spec fn decompressed_size_is_sane(size: u64) -> bool {
    size == LZMA_STREAM_SIZE || MIN_SUPPORTED_DECOMPRESSED_SIZE <= size
        <= MAX_SUPPORTED_DECOMPRESSED_SIZE
}

/// The decompressed size that the header bytes report.
pub open spec fn lzma_reported_size(data: Seq<u8>) -> u64 {
    le_value(data.subrange(5, 13)) as u64
}

/// The LZMA header at the start of `data`, if there is a valid one.
pub open spec fn lzma_header(data: Seq<u8>) -> Option<LZMAHeader> {
    if data.len() >= LZMA_PARSED_SIZE && data[13] == 0 && decompressed_size_is_sane(
        lzma_reported_size(data),
    ) {
        Some(
            LZMAHeader {
                properties: data[0],
                dictionary_size: le_value(data.subrange(1, 5)) as u32,
                decompressed_size: lzma_reported_size(data),
            },
        )
    } else {
        None
    }
}

/// Parses an LZMA header.
pub fn parse_lzma_header(lzma_data: &[u8]) -> (result: Result<LZMAHeader, StructureError>)
    ensures
        result == match lzma_header(lzma_data@) {
            Some(header) => Ok::<LZMAHeader, StructureError>(header),
            None => Err(StructureError),
        },
{
    if lzma_data.len() < LZMA_PARSED_SIZE {
        return Err(StructureError);
    }
    let properties = lzma_data[0];
    let dictionary_size = read_u32_le(lzma_data, 1);
    let decompressed_size = read_u64_le(lzma_data, 5);
    let null_byte = lzma_data[LZMA_HEADER_SIZE];
    if null_byte == 0 {
        if decompressed_size >= MIN_SUPPORTED_DECOMPRESSED_SIZE && (decompressed_size
            == LZMA_STREAM_SIZE || decompressed_size <= MAX_SUPPORTED_DECOMPRESSED_SIZE) {
            return Ok(LZMAHeader { properties, dictionary_size, decompressed_size });
        }
    }
    Err(StructureError)
}

/// A header that is followed by a byte other than zero is rejected,
/// whatever the header holds; so is one that is followed by no byte at all.
pub proof fn lemma_nonzero_trailer_is_rejected(data: Seq<u8>)
    requires
        data.len() <= LZMA_HEADER_SIZE || data[LZMA_HEADER_SIZE as int] != 0,
    ensures
        lzma_header(data) is None,
{
}

/// A header that reports fewer than 256 decompressed bytes is rejected.
pub proof fn lemma_small_size_is_rejected(data: Seq<u8>)
    requires
        lzma_reported_size(data) < MIN_SUPPORTED_DECOMPRESSED_SIZE,
    ensures
        lzma_header(data) is None,
{
}

/// A header that reports the all-ones size of a stream is accepted, although
/// that size is far beyond the supported maximum.
pub proof fn lemma_stream_size_is_accepted(data: Seq<u8>)
    requires
        data.len() >= LZMA_PARSED_SIZE,
        data[LZMA_HEADER_SIZE as int] == 0,
        lzma_reported_size(data) == LZMA_STREAM_SIZE,
    ensures
        lzma_header(data) is Some,
        lzma_header(data).unwrap().decompressed_size == LZMA_STREAM_SIZE,
        LZMA_STREAM_SIZE > MAX_SUPPORTED_DECOMPRESSED_SIZE,
{
}

} // verus!
