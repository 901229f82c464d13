//! The block headers of an LZFSE stream. A stream is a chain of blocks, each
//! a header followed by its payload, closed by an end-of-stream block.

use crate::endian::{le_value, read_u32_le, read_u64_le};
use crate::structures::common::StructureError;
use vstd::prelude::*;

verus! {

/// What the header of one LZFSE block tells about the block.
#[derive(Debug, Default, Clone, Copy, PartialEq, Eq)]
pub struct LZFSEBlock {
    /// Whether this block closes the stream.
    pub eof: bool,
    /// The number of payload bytes that follow the header.
    pub data_size: usize,
    /// The number of bytes that the header itself takes.
    pub header_size: usize,
    /// The number of bytes that the block decodes to.
    pub uncompressed_size: usize,
}

/// The magic `bvx$` of the block that closes a stream.
pub const ENDOFSTREAM: u32 = 0x24787662;

/// The magic `bvx-` of a block of stored bytes.
pub const UNCOMPRESSED: u32 = 0x2d787662;

/// The magic `bvx1` of an LZFSE block with an unpacked header.
pub const COMPRESSEDV1: u32 = 0x31787662;

/// The magic `bvx2` of an LZFSE block with a packed header.
pub const COMPRESSEDV2: u32 = 0x32787662;

/// The magic `bvxn` of an LZVN block.
pub const COMPRESSEDLZVN: u32 = 0x6e787662;

/// The size of an unpacked LZFSE header, frequency tables included.
pub const V1_HEADER_SIZE: usize = 770;

/// The width of the payload sizes that a packed header holds: twenty bits.
pub const PAYLOAD_MASK: u64 = 0xF_FFFF;

/// The 32-bit field of a header that starts at byte `at`.
pub open spec fn field32(data: Seq<u8>, at: int) -> nat {
    le_value(data.subrange(at, at + 4))
}

/// The 64-bit field of a header that starts at byte `at`.
pub open spec fn field64(data: Seq<u8>, at: int) -> u64 {
    le_value(data.subrange(at, at + 8)) as u64
}

/// The number of payload bytes of a block with a packed header: the
/// literal payload, twenty bits from bit 20 of the first packed field, and
/// the payload of lengths, matches and distances, twenty bits from bit 40 of
/// the second.
pub open spec fn v2_payload_size(data: Seq<u8>) -> nat {
    (((field64(data, 8) >> 20) & PAYLOAD_MASK) + ((field64(data, 16) >> 40) & PAYLOAD_MASK)) as nat
}

/// The size that a packed header reports for itself: the low 32 bits of the
/// third packed field.
pub open spec fn v2_header_size(data: Seq<u8>) -> nat {
    (field64(data, 24) & 0xFFFF_FFFF) as nat
}

/// The number of payload bytes of a block with an unpacked header: the
/// literal payload and the payload of lengths, matches and distances.
pub open spec fn v1_payload_size(data: Seq<u8>) -> nat {
    field32(data, 20) + field32(data, 24)
}

/// The block whose header stands at the start of `data`, if there is one:
/// the magic must be known, and the data must hold the fields that are read.
pub open spec fn lzfse_block(data: Seq<u8>) -> Option<LZFSEBlock> {
    if data.len() < 4 {
        None
    } else if field32(data, 0) == ENDOFSTREAM {
        Some(LZFSEBlock { eof: true, data_size: 0, header_size: 4, uncompressed_size: 0 })
    } else if field32(data, 0) == UNCOMPRESSED {
        if data.len() >= 8 {
            Some(
                LZFSEBlock {
                    eof: false,
                    data_size: field32(data, 4) as usize,
                    header_size: 8,
                    uncompressed_size: field32(data, 4) as usize,
                },
            )
        } else {
            None
        }
    } else if field32(data, 0) == COMPRESSEDV1 {
        if data.len() >= 28 && v1_payload_size(data) <= usize::MAX {
            Some(
                LZFSEBlock {
                    eof: false,
                    data_size: v1_payload_size(data) as usize,
                    header_size: V1_HEADER_SIZE,
                    uncompressed_size: field32(data, 4) as usize,
                },
            )
        } else {
            None
        }
    } else if field32(data, 0) == COMPRESSEDV2 {
        if data.len() >= 32 {
            Some(
                LZFSEBlock {
                    eof: false,
                    data_size: v2_payload_size(data) as usize,
                    header_size: v2_header_size(data) as usize,
                    uncompressed_size: field32(data, 4) as usize,
                },
            )
        } else {
            None
        }
    } else if field32(data, 0) == COMPRESSEDLZVN {
        if data.len() >= 12 {
            Some(
                LZFSEBlock {
                    eof: false,
                    data_size: field32(data, 8) as usize,
                    header_size: 12,
                    uncompressed_size: field32(data, 4) as usize,
                },
            )
        } else {
            None
        }
    } else {
        None
    }
}

/// Parses the header of an LZFSE block.
pub fn parse_lzfse_block_header(lzfse_data: &[u8]) -> (result: Result<LZFSEBlock, StructureError>)
    ensures
        result == match lzfse_block(lzfse_data@) {
            Some(block) => Ok::<LZFSEBlock, StructureError>(block),
            None => Err(StructureError),
        },
{
    let available = lzfse_data.len();
    if available < 4 {
        return Err(StructureError);
    }
    let block_type = read_u32_le(lzfse_data, 0);
    if block_type == ENDOFSTREAM {
        Ok(LZFSEBlock { eof: true, data_size: 0, header_size: 4, uncompressed_size: 0 })
    } else if block_type == UNCOMPRESSED {
        if available < 8 {
            return Err(StructureError);
        }
        let n_raw_bytes = read_u32_le(lzfse_data, 4) as usize;
        Ok(
            LZFSEBlock {
                eof: false,
                data_size: n_raw_bytes,
                header_size: 8,
                uncompressed_size: n_raw_bytes,
            },
        )
    } else if block_type == COMPRESSEDV1 {
        if available < 28 {
            return Err(StructureError);
        }
        let n_raw_bytes = read_u32_le(lzfse_data, 4) as usize;
        let n_literal_payload_bytes = read_u32_le(lzfse_data, 20) as usize;
        let n_lmd_payload_bytes = read_u32_le(lzfse_data, 24) as usize;
        match n_literal_payload_bytes.checked_add(n_lmd_payload_bytes) {
            Some(data_size) => Ok(
                LZFSEBlock {
                    eof: false,
                    data_size,
                    header_size: V1_HEADER_SIZE,
                    uncompressed_size: n_raw_bytes,
                },
            ),
            None => Err(StructureError),
        }
    } else if block_type == COMPRESSEDV2 {
        if available < 32 {
            return Err(StructureError);
        }
        let n_raw_bytes = read_u32_le(lzfse_data, 4) as usize;
        let packed1 = read_u64_le(lzfse_data, 8);
        let packed2 = read_u64_le(lzfse_data, 16);
        let packed3 = read_u64_le(lzfse_data, 24);
        let n_literal_payload_bytes = (packed1 >> 20) & PAYLOAD_MASK;
        let n_lmd_payload_bytes = (packed2 >> 40) & PAYLOAD_MASK;
        let header_size = packed3 & 0xFFFF_FFFF;
        assert(n_literal_payload_bytes <= 0xF_FFFF) by (bit_vector)
            requires
                n_literal_payload_bytes == (packed1 >> 20) & 0xF_FFFF,
        ;
        assert(n_lmd_payload_bytes <= 0xF_FFFF) by (bit_vector)
            requires
                n_lmd_payload_bytes == (packed2 >> 40) & 0xF_FFFF,
        ;
        assert(header_size <= 0xFFFF_FFFF) by (bit_vector)
            requires
                header_size == packed3 & 0xFFFF_FFFF,
        ;
        Ok(
            LZFSEBlock {
                eof: false,
                data_size: (n_literal_payload_bytes + n_lmd_payload_bytes) as usize,
                header_size: header_size as usize,
                uncompressed_size: n_raw_bytes,
            },
        )
    } else if block_type == COMPRESSEDLZVN {
        if available < 12 {
            return Err(StructureError);
        }
        let n_raw_bytes = read_u32_le(lzfse_data, 4) as usize;
        let n_payload_bytes = read_u32_le(lzfse_data, 8) as usize;
        Ok(
            LZFSEBlock {
                eof: false,
                data_size: n_payload_bytes,
                header_size: 12,
                uncompressed_size: n_raw_bytes,
            },
        )
    } else {
        Err(StructureError)
    }
}

} // verus!
