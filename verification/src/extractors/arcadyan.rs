//! The extractor for Arcadyan's obfuscated LZMA streams: two blocks of the
//! header are swapped and one of them is scrambled; undone, the data are an
//! LZMA stream behind four bytes.

use crate::extractors::common::{Chroot, ExtractionResult};
use crate::extractors::common::{Extractor, ExtractorType, InternalExtractor};
use crate::extractors::lzma::{extraction_output, extraction_result};
use crate::extractors::lzma::{lzma_decompress, lzma_extraction};
use vstd::prelude::*;
use vstd::slice::slice_subrange;

verus! {

/// The length of each of the two blocks that are swapped.
pub const BLOCK_SIZE: usize = 32;

/// Where the first block starts.
pub const BLOCK1_START: usize = 4;

/// Where the first block ends.
pub const BLOCK1_END: usize = 36;

/// Where the second block starts.
pub const BLOCK2_START: usize = 0x68;

/// Where the second block ends, and with it the obfuscated header.
pub const BLOCK2_END: usize = 0x88;

/// Where the LZMA stream starts in the de-obfuscated data.
pub const LZMA_DATA_OFFSET: usize = 4;

/// Obfuscated data of this size or less are not taken for a stream.
pub const MIN_DATA_SIZE: usize = 0x100;

/// Obfuscated data of more than this size are not taken for a stream.
pub const MAX_DATA_SIZE: usize = 0x1B0000;

/// Describes the extractor of Arcadyan's obfuscated LZMA streams.
pub fn obfuscated_lzma_extractor() -> (extractor: Extractor)
    ensures
        extractor.utility == ExtractorType::Internal(InternalExtractor::ObfuscatedLzma),
{
    Extractor { utility: ExtractorType::Internal(InternalExtractor::ObfuscatedLzma) }
}

/// A byte rotated left by four bits: its two nibbles change places.
pub open spec fn rotated(byte: u8) -> u8 {
    ((byte % 16) * 16 + byte / 16) as u8
}

/// Rotates a byte left by four bits.
pub fn rotate_nibbles(byte: u8) -> (swapped: u8)
    ensures
        swapped == rotated(byte),
{
    let swapped = (byte << 4) | (byte >> 4);
    assert(swapped == (byte % 16) * 16 + byte / 16) by (bit_vector)
        requires
            swapped == (byte << 4) | (byte >> 4),
    ;
    swapped
}

/// The data with the two blocks of the header in each other's place.
pub open spec fn with_blocks_swapped(data: Seq<u8>) -> Seq<u8> {
    data.subrange(0, BLOCK1_START as int) + data.subrange(BLOCK2_START as int, BLOCK2_END as int)
        + data.subrange(BLOCK1_END as int, BLOCK2_START as int) + data.subrange(
        BLOCK1_START as int,
        BLOCK1_END as int,
    ) + data.subrange(BLOCK2_END as int, data.len() as int)
}

/// The other byte of the pair that position `at` of the first block belongs
/// to: the block falls into pairs of neighbours from its start.
pub open spec fn pair_partner(at: int) -> int {
    if (at - BLOCK1_START) % 2 == 0 {
        at + 1
    } else {
        at - 1
    }
}

/// The de-obfuscated form of `data`: the two blocks are swapped; then, in
/// what is now the first block, the bytes of each pair change places and
/// each is rotated by four bits.
pub open spec fn deobfuscated(data: Seq<u8>) -> Seq<u8> {
    let swapped = with_blocks_swapped(data);
    Seq::new(
        swapped.len(),
        |i: int|
            if BLOCK1_START <= i < BLOCK1_END {
                rotated(swapped[pair_partner(i)])
            } else {
                swapped[i]
            },
    )
}

/// De-obfuscates Arcadyan data, which must hold the whole obfuscated header.
pub fn arcadyan_deobfuscator(obfuscated_data: &[u8]) -> (deobfuscated_data: Vec<u8>)
    requires
        obfuscated_data@.len() >= BLOCK2_END,
    ensures
        deobfuscated_data@ == deobfuscated(obfuscated_data@),
{
    let len = obfuscated_data.len();
    let mut deobfuscated_data: Vec<u8> = Vec::with_capacity(len);

    // Get the "parts" and "blocks" of the obfuscated header
    let p1 = slice_subrange(obfuscated_data, 0, BLOCK1_START);
    let b1 = slice_subrange(obfuscated_data, BLOCK1_START, BLOCK1_END);
    let p2 = slice_subrange(obfuscated_data, BLOCK1_END, BLOCK2_START);
    let b2 = slice_subrange(obfuscated_data, BLOCK2_START, BLOCK2_END);
    let p3 = slice_subrange(obfuscated_data, BLOCK2_END, len);

    // Swap "block1" and "block2"
    deobfuscated_data.extend_from_slice(p1);
    deobfuscated_data.extend_from_slice(b2);
    deobfuscated_data.extend_from_slice(p2);
    deobfuscated_data.extend_from_slice(b1);
    deobfuscated_data.extend_from_slice(p3);
    let ghost swapped = with_blocks_swapped(obfuscated_data@);

    // Swap nibbles and pairs of bytes in what is now block 1
    let mut at: usize = BLOCK1_START;
    while at < BLOCK1_END
        invariant
            BLOCK1_START <= at <= BLOCK1_END,
            (at - BLOCK1_START) % 2 == 0,
            swapped.len() >= BLOCK2_END,
            deobfuscated_data@.len() == swapped.len(),
            forall|i: int|
                BLOCK1_START <= i < at ==> deobfuscated_data@[i] == rotated(
                    swapped[pair_partner(i)],
                ),
            forall|i: int|
                0 <= i < swapped.len() && !(BLOCK1_START <= i < at) ==> deobfuscated_data@[i]
                    == swapped[i],
        decreases BLOCK1_END - at,
    {
        let first = deobfuscated_data[at];
        let second = deobfuscated_data[at + 1];
        deobfuscated_data[at] = rotate_nibbles(second);
        deobfuscated_data[at + 1] = rotate_nibbles(first);
        at = at + 2;
    }
    deobfuscated_data
}

/// Whether `available` bytes of obfuscated data can hold a stream.
pub open spec fn size_is_plausible(available: int) -> bool {
    MIN_DATA_SIZE < available <= MAX_DATA_SIZE
}

/// The de-obfuscated form of the data that start at `offset`, if there are
/// as many of them as a stream can have.
pub open spec fn plausible_stream(file_data: Seq<u8>, offset: int) -> Option<Seq<u8>> {
    if 0 <= offset <= file_data.len() && size_is_plausible(file_data.len() - offset) {
        Some(deobfuscated(file_data.subrange(offset, file_data.len() as int)))
    } else {
        None
    }
}

/// De-obfuscates the data that start at `offset` in `file_data`, if their
/// size is plausible: this is what the LZMA decoder is given, four bytes in.
pub fn deobfuscate_at(file_data: &[u8], offset: usize) -> (stream: Option<Vec<u8>>)
    ensures
        match stream {
            Some(data) => plausible_stream(file_data@, offset as int) == Some(data@),
            None => plausible_stream(file_data@, offset as int) is None,
        },
{
    if offset > file_data.len() {
        return None;
    }
    let available_data: usize = file_data.len() - offset;

    // Sanity check data size
    if available_data <= MAX_DATA_SIZE && available_data > MIN_DATA_SIZE {
        Some(arcadyan_deobfuscator(slice_subrange(file_data, offset, file_data.len())))
    } else {
        None
    }
}

/// What the obfuscated stream at `offset` in `file_data` is extracted to:
/// what the LZMA stream is extracted to that starts four bytes into the
/// de-obfuscated data, if the data are of a plausible size.
pub open spec fn obfuscated_extraction(file_data: Seq<u8>, offset: int) -> Option<
    (usize, Seq<u8>),
> {
    match plausible_stream(file_data, offset) {
        Some(plain) => lzma_extraction(plain, LZMA_DATA_OFFSET as int),
        None => None,
    }
}

/// Extracts the obfuscated LZMA stream that starts at `offset` in
/// `file_data`: data of a plausible size are de-obfuscated and handed to
/// the LZMA extractor, four bytes in, whose result is returned: its size is
/// that of the compressed stream, without the four bytes. Data of any other
/// size fail. A failure leaves the sandbox as it was.
pub fn extract_obfuscated_lzma(
    file_data: &[u8],
    offset: usize,
    output_directory: Option<&mut Chroot>,
) -> (result: ExtractionResult)
    requires
        output_directory matches Some(chroot) ==> chroot.well_formed(),
    ensures
        result == extraction_result(obfuscated_extraction(file_data@, offset as int)),
        output_directory matches Some(chroot) ==> {
            &&& final(chroot).well_formed()
            &&& final(chroot).root_dir() == chroot.root_dir()
            &&& final(chroot)@ == extraction_output(
                chroot@,
                obfuscated_extraction(file_data@, offset as int),
            )
        },
{
    match deobfuscate_at(file_data, offset) {
        // Decompress the LZMA data, which start 4 bytes into the de-obfuscated data
        Some(deobfuscated_data) => lzma_decompress(
            deobfuscated_data.as_slice(),
            LZMA_DATA_OFFSET,
            output_directory,
        ),
        None => ExtractionResult { success: false, size: None },
    }
}

} // verus!
