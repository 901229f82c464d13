//! The header of Autel's obfuscated firmware container.

use crate::common::{c_string, get_cstring, str_eq, utf8_text};
use crate::endian::{le_value, read_u32_le};
use crate::structures::common::StructureError;
use vstd::prelude::*;
use vstd::slice::slice_subrange;

verus! {

/// The sizes that an Autel ECC header reports.
#[derive(Debug, Default, Clone, Copy, PartialEq, Eq)]
pub struct AutelECCHeader {
    pub data_size: usize,
    pub header_size: usize,
}

/// The length of the header: an eight-byte magic, the four-byte size of the
/// data, the four-byte size of the header and sixteen bytes of copyright.
pub const AUTEL_HEADER_SIZE: usize = 32;

/// The size that every Autel header reports for itself.
pub const EXPECTED_HEADER_SIZE: u32 = 0x20;

/// The copyright string of an Autel header, as text: what its sixteen bytes
/// hold up to the first NUL byte.
pub open spec fn autel_copyright(data: Seq<u8>) -> Seq<char> {
    utf8_text(c_string(data.subrange(16, 32)))
}

/// The Autel header at the start of `data`, if there is a valid one: it
/// must report the expected header size and carry the expected copyright
/// string.
pub open spec fn autel_header(data: Seq<u8>) -> Option<AutelECCHeader> {
    if data.len() >= AUTEL_HEADER_SIZE && le_value(data.subrange(12, 16)) == EXPECTED_HEADER_SIZE
        && autel_copyright(data) == "Copyright Autel"@ {
        Some(
            AutelECCHeader {
                data_size: le_value(data.subrange(8, 12)) as usize,
                header_size: EXPECTED_HEADER_SIZE as usize,
            },
        )
    } else {
        None
    }
}

/// Parses an Autel header.
pub fn parse_autel_header(autel_data: &[u8]) -> (result: Result<AutelECCHeader, StructureError>)
    ensures
        result == match autel_header(autel_data@) {
            Some(header) => Ok::<AutelECCHeader, StructureError>(header),
            None => Err(StructureError),
        },
{
    if autel_data.len() < AUTEL_HEADER_SIZE {
        return Err(StructureError);
    }
    let data_size = read_u32_le(autel_data, 8);
    let header_size = read_u32_le(autel_data, 12);

    // Sanity check the reported header size
    if header_size == EXPECTED_HEADER_SIZE {
        // Get the copyright string contained in the header
        let copyright_string = get_cstring(slice_subrange(autel_data, 16, 32));

        // Sanity check the copyright string value
        if str_eq(copyright_string.as_str(), "Copyright Autel") {
            return Ok(
                AutelECCHeader { data_size: data_size as usize, header_size: header_size as usize },
            );
        }
    }
    Err(StructureError)
}

} // verus!
