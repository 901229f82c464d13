//! The headers of Linux kernel images for ARM: the zImage of 32-bit ARM and
//! the boot image of ARM64.

use crate::endian::{le_value, read_u32_le, read_u64_le};
use crate::structures::common::StructureError;
use vstd::prelude::*;

verus! {

/// What is reported of a Linux ARM64 boot image header.
#[derive(Debug, Default, Clone)]
pub struct LinuxARM64BootHeader {
    pub header_size: usize,
    pub image_size: u64,
    pub endianness: String,
}

/// What is reported of a Linux ARM zImage header.
#[derive(Debug, Default, Clone)]
pub struct LinuxARMzImageHeader {
    pub endianness: String,
}

/// The word that a byte order is reported by.
pub open spec fn endianness_name(big: bool) -> Seq<char> {
    if big {
        "big"@
    } else {
        "little"@
    }
}

/// The word that a byte order is reported by, as a string.
fn endianness_string(big: bool) -> (name: String)
    ensures
        name@ == endianness_name(big),
{
    if big {
        "big".to_owned()
    } else {
        "little".to_owned()
    }
}

/// The length of a zImage header: eight 32-bit words.
pub const ZIMAGE_HEADER_SIZE: usize = 32;

/// The ARM instruction `mov r0, r0`, as a little-endian kernel stores it.
pub const NOP_LE: u32 = 0xE1A00000;

/// The ARM instruction `mov r0, r0`, as a big-endian kernel stores it.
pub const NOP_BE: u32 = 0x0000A0E1;

/// The `index`-th 32-bit word of `data`, read least significant byte first.
pub open spec fn word_at(data: Seq<u8>, index: int) -> nat {
    le_value(data.subrange(4 * index, 4 * index + 4))
}

/// Whether the first eight words of `data` are all the same.
pub open spec fn zimage_words_agree(data: Seq<u8>) -> bool {
    forall|k: int| 0 <= k < 8 ==> #[trigger] word_at(data, k) == word_at(data, 0)
}

/// The byte order of the zImage at the start of `data`, `true` for big
/// endian, if there is a zImage header: eight identical words that each
/// hold a no-op instruction in one of the two byte orders.
pub open spec fn zimage_big_endian(data: Seq<u8>) -> Option<bool> {
    if data.len() >= ZIMAGE_HEADER_SIZE && zimage_words_agree(data) && (word_at(data, 0) == NOP_LE
        || word_at(data, 0) == NOP_BE) {
        Some(word_at(data, 0) == NOP_BE)
    } else {
        None
    }
}

/// Parses a Linux ARM zImage header.
pub fn parse_linux_arm_zimage_header(zimage_data: &[u8]) -> (result: Result<
    LinuxARMzImageHeader,
    StructureError,
>)
    ensures
        match result {
            Ok(header) => zimage_big_endian(zimage_data@) matches Some(big) && header.endianness@
                == endianness_name(big),
            Err(_) => zimage_big_endian(zimage_data@) is None,
        },
{
    if zimage_data.len() < ZIMAGE_HEADER_SIZE {
        return Err(StructureError);
    }
    let first = read_u32_le(zimage_data, 0);
    let mut k: usize = 1;
    while k < 8
        invariant
            1 <= k <= 8,
            zimage_data@.len() >= ZIMAGE_HEADER_SIZE,
            first == word_at(zimage_data@, 0),
            forall|j: int| 0 <= j < k ==> #[trigger] word_at(zimage_data@, j) == first,
        decreases 8 - k,
    {
        let word = read_u32_le(zimage_data, 4 * k);
        if word != first {
            assert(word_at(zimage_data@, k as int) != word_at(zimage_data@, 0));
            return Err(StructureError);
        }
        k = k + 1;
    }
    if first == NOP_LE {
        Ok(LinuxARMzImageHeader { endianness: endianness_string(false) })
    } else if first == NOP_BE {
        Ok(LinuxARMzImageHeader { endianness: endianness_string(true) })
    } else {
        Err(StructureError)
    }
}

/// The length of an ARM64 boot image header.
pub const ARM64_HEADER_SIZE: usize = 64;

/// The bits of the flags field that must be zero: all but the low four.
pub const FLAGS_RESERVED_MASK: u64 = 0xFFFF_FFFF_FFFF_FFF0;

/// The bit of the flags field that tells a big-endian kernel.
pub const FLAGS_ENDIAN_MASK: u64 = 1;

/// The size of the kernel image that an ARM64 header reports.
pub open spec fn arm64_image_size(data: Seq<u8>) -> u64 {
    le_value(data.subrange(16, 24)) as u64
}

/// The flags field of an ARM64 header.
pub open spec fn arm64_flags(data: Seq<u8>) -> u64 {
    le_value(data.subrange(24, 32)) as u64
}

/// The offset at which an ARM64 header says that the PE header lies.
pub open spec fn arm64_pe_offset(data: Seq<u8>) -> nat {
    le_value(data.subrange(60, 64))
}

/// Whether `data` start with a valid ARM64 boot image header: the three
/// reserved fields are zero, the two bytes at the PE offset lie inside the
/// data and spell "PE", and no reserved bit of the flags is set.
pub open spec fn arm64_header_is_valid(data: Seq<u8>) -> bool {
    &&& data.len() >= ARM64_HEADER_SIZE
    &&& le_value(data.subrange(32, 40)) == 0
    &&& le_value(data.subrange(40, 48)) == 0
    &&& le_value(data.subrange(48, 56)) == 0
    &&& arm64_pe_offset(data) + 2 <= data.len()
    &&& data[arm64_pe_offset(data) as int] == 0x50
    &&& data[(arm64_pe_offset(data) + 1) as int] == 0x45
    &&& arm64_flags(data) & FLAGS_RESERVED_MASK == 0
}

/// Whether the flags of an ARM64 header tell a big-endian kernel.
pub open spec fn arm64_big_endian(data: Seq<u8>) -> bool {
    arm64_flags(data) & FLAGS_ENDIAN_MASK == 1
}

/// Parses a Linux ARM64 boot image header.
pub fn parse_linux_arm64_boot_image_header(img_data: &[u8]) -> (result: Result<
    LinuxARM64BootHeader,
    StructureError,
>)
    ensures
        match result {
            Ok(header) => {
                &&& arm64_header_is_valid(img_data@)
                &&& header.header_size == ARM64_HEADER_SIZE
                &&& header.image_size == arm64_image_size(img_data@)
                &&& header.endianness@ == endianness_name(arm64_big_endian(img_data@))
            },
            Err(_) => !arm64_header_is_valid(img_data@),
        },
{
    if img_data.len() < ARM64_HEADER_SIZE {
        return Err(StructureError);
    }
    let image_size = read_u64_le(img_data, 16);
    let flags = read_u64_le(img_data, 24);
    let reserved1 = read_u64_le(img_data, 32);
    let reserved2 = read_u64_le(img_data, 40);
    let reserved3 = read_u64_le(img_data, 48);
    let pe_offset = read_u32_le(img_data, 60);

    // Make sure the reserved fields are not set
    if !(reserved1 == 0 && reserved2 == 0 && reserved3 == 0) {
        return Err(StructureError);
    }
    // Start of the PE signature, which must lie inside the data
    let pe_start = pe_offset as usize;
    if pe_start >= img_data.len() || img_data.len() - pe_start < 2 {
        return Err(StructureError);
    }
    // There should be a PE header here
    if img_data[pe_start] != 0x50 || img_data[pe_start + 1] != 0x45 {
        return Err(StructureError);
    }
    // Make sure the reserved flag bits are not set
    if (flags & FLAGS_RESERVED_MASK) != 0 {
        return Err(StructureError);
    }
    // Determine the endianness from the flags field
    let big = (flags & FLAGS_ENDIAN_MASK) == 1;
    Ok(
        LinuxARM64BootHeader {
            header_size: ARM64_HEADER_SIZE,
            image_size,
            endianness: endianness_string(big),
        },
    )
}

} // verus!
