//! The extractor for Autel's obfuscated firmware: a byte-wise cipher over
//! blocks of 256 bytes, behind a small header.

use crate::extractors::common::{appended, is_confined_name, Chroot, Staged};
use crate::extractors::common::{ExtractionResult, Extractor, ExtractorType, InternalExtractor};
use crate::structures::autel::{autel_header, parse_autel_header};
use vstd::prelude::*;
use vstd::slice::slice_subrange;
use vstd::string::is_ascii_spec_bytes;
use vstd::utf8::encode_utf8;

verus! {

/// The length of a cipher block.
pub const BLOCK_SIZE: usize = 256;

/// What is added to each byte of a block, by its position in the block.
pub const ADDS: [u8; 256] = [
    54, 96, 59, 191, 45, 96, 27, 152, 44, 118, 115, 210, 13, 27, 20, 139,
    28, 17, 19, 224, 20, 145, 14, 12, 18, 17, 29, 246, 115, 28, 155, 12,
    31, 20, 27, 142, 96, 18, 145, 23, 13, 13, 23, 19, 27, 83, 146, 145,
    18, 96, 13, 159, 96, 20, 20, 27, 9, 96, 13, 159, 96, 142, 31, 155,
    7, 224, 20, 27, 28, 17, 19, 96, 76, 208, 80, 78, 96, 27, 24, 140,
    96, 17, 12, 224, 14, 17, 151, 14, 16, 96, 13, 155, 20, 29, 23, 24,
    27, 10, 96, 140, 14, 17, 16, 144, 11, 13, 96, 17, 12, 96, 28, 27,
    27, 18, 96, 31, 96, 13, 23, 224, 27, 142, 27, 24, 12, 96, 84, 14,
    27, 10, 155, 9, 17, 56, 96, 82, 13, 27, 20, 139, 28, 145, 19, 118,
    115, 20, 145, 14, 12, 146, 17, 29, 96, 28, 27, 140, 31, 148, 27, 14,
    83, 18, 17, 23, 13, 13, 151, 147, 27, 96, 19, 159, 14, 25, 17, 142,
    16, 27, 14, 224, 17, 12, 224, 28, 27, 13, 11, 96, 27, 30, 224, 146,
    31, 29, 96, 140, 31, 24, 140, 96, 27, 29, 31, 154, 14, 27, 140, 18,
    23, 96, 21, 14, 17, 9, 12, 155, 18, 96, 27, 148, 29, 23, 24, 155,
    10, 96, 28, 14, 31, 28, 18, 31, 12, 13, 96, 31, 96, 13, 27, 18,
    23, 26, 27, 156, 96, 79, 211, 76, 77, 75, 206, 182, 96, 59, 191, 173,
];

/// What each byte of a block is combined with after the addition, by its
/// position in the block.
pub const XORS: [u8; 256] = [
    147, 129, 193, 0, 130, 144, 129, 0, 180, 141, 129, 0, 164, 133, 192, 0,
    166, 133, 193, 0, 161, 0, 193, 132, 161, 140, 192, 0, 178, 132, 0, 132,
    165, 136, 193, 0, 164, 133, 0, 132, 165, 148, 193, 132, 178, 137, 0, 0,
    166, 148, 193, 0, 166, 129, 193, 132, 160, 148, 192, 0, 180, 0, 193, 0,
    166, 0, 192, 132, 160, 149, 193, 132, 164, 0, 192, 132, 160, 144, 193, 0,
    178, 141, 193, 0, 161, 141, 0, 132, 165, 137, 193, 0, 161, 141, 192, 132,
    178, 133, 192, 0, 180, 133, 192, 0, 163, 141, 192, 132, 178, 141, 192, 132,
    130, 141, 193, 132, 181, 140, 193, 0, 166, 0, 192, 132, 183, 133, 192, 132,
    178, 140, 0, 132, 160, 133, 192, 132, 160, 137, 193, 0, 161, 0, 192, 132,
    165, 132, 0, 132, 167, 0, 193, 132, 176, 144, 193, 0, 180, 0, 192, 132,
    160, 137, 193, 132, 165, 145, 0, 0, 178, 137, 193, 0, 160, 148, 193, 0,
    180, 136, 193, 0, 178, 144, 0, 132, 160, 141, 193, 132, 165, 140, 0, 0,
    165, 129, 192, 0, 161, 145, 0, 132, 165, 140, 192, 0, 161, 145, 0, 132,
    167, 140, 129, 132, 165, 137, 193, 0, 161, 141, 192, 0, 178, 133, 192, 0,
    180, 133, 192, 132, 130, 129, 193, 132, 180, 144, 193, 132, 160, 141, 193, 132,
    181, 140, 193, 0, 166, 141, 0, 132, 160, 133, 0, 0, 129, 133, 0, 0,
];

/// Describes the extractor of Autel firmware.
pub fn autel_extractor() -> (extractor: Extractor)
    ensures
        extractor.utility == ExtractorType::Internal(InternalExtractor::Autel),
{
    Extractor { utility: ExtractorType::Internal(InternalExtractor::Autel) }
}

/// The addend of the table for a position in a block.
pub closed spec fn addend(position: int) -> u8 {
    ADDS[position]
}

/// The mask of the table for a position in a block.
pub closed spec fn mask(position: int) -> u8 {
    XORS[position]
}

/// Looks up the addend for a position in a block.
pub fn addend_at(position: usize) -> (add: u8)
    requires
        position < BLOCK_SIZE,
    ensures
        add == addend(position as int),
{
    ADDS[position]
}

/// Looks up the mask for a position in a block.
pub fn mask_at(position: usize) -> (xor: u8)
    requires
        position < BLOCK_SIZE,
    ensures
        xor == mask(position as int),
{
    XORS[position]
}

/// The decoded form of the byte `raw` that stands at `position` in its
/// block: the table's addend is added modulo 256, then the table's mask is
/// applied by exclusive or.
pub open spec fn decoded_byte(position: int, raw: u8) -> u8 {
    (((raw + addend(position)) % 256) as u8) ^ mask(position)
}

/// The decoded form of one block of at most 256 bytes.
pub open spec fn decoded_block(block: Seq<u8>) -> Seq<u8> {
    Seq::new(block.len(), |i: int| decoded_byte(i, block[i]))
}

/// The decoded form of encoded data of any length: the data fall into
/// blocks of 256 bytes, the last of which may be shorter, and each byte is
/// decoded by its position in its block.
pub open spec fn decoded_data(data: Seq<u8>) -> Seq<u8> {
    Seq::new(data.len(), |i: int| decoded_byte(i % 256, data[i]))
}

/// Decodes one block of Autel firmware, which holds at most 256 bytes.
pub fn decode_autel_block(block_data: &[u8]) -> (decoded_block: Vec<u8>)
    requires
        block_data@.len() <= BLOCK_SIZE,
    ensures
        decoded_block@ == self::decoded_block(block_data@),
{
    let mut decoded: Vec<u8> = Vec::with_capacity(block_data.len());
    let mut i: usize = 0;
    while i < block_data.len()
        invariant
            i <= block_data.len() <= BLOCK_SIZE,
            decoded@.len() == i,
            forall|j: int| 0 <= j < i ==> decoded@[j] == decoded_byte(j, block_data@[j]),
        decreases block_data.len() - i,
    {
        let add = addend_at(i);
        let xor = mask_at(i);
        let raw = block_data[i];
        assert(raw.wrapping_add(add) == ((raw + add) % 256) as u8);
        decoded.push(raw.wrapping_add(add) ^ xor);
        i = i + 1;
    }
    decoded
}

/// A block of 256 zero bytes decodes to the addend table combined with the
/// mask table, position by position.
pub proof fn lemma_zero_block_shows_tables(block: Seq<u8>)
    requires
        block.len() == BLOCK_SIZE,
        forall|i: int| 0 <= i < block.len() ==> block[i] == 0,
    ensures
        decoded_block(block).len() == BLOCK_SIZE,
        forall|i: int|
            0 <= i < BLOCK_SIZE ==> #[trigger] decoded_block(block)[i] == addend(i) ^ mask(i),
{
    assert forall|i: int| 0 <= i < BLOCK_SIZE implies #[trigger] decoded_block(block)[i] == addend(
        i,
    ) ^ mask(i) by {
        assert((block[i] + addend(i)) % 256 == addend(i));
    }
}

/// The tables as the lookups see them: entry by entry the constants.
pub proof fn lemma_tables_are_the_constants()
    ensures
        forall|i: int| 0 <= i < BLOCK_SIZE ==> #[trigger] addend(i) == ADDS[i],
        forall|i: int| 0 <= i < BLOCK_SIZE ==> #[trigger] mask(i) == XORS[i],
{
}

/// Decoding block by block is decoding the whole: the decoded form of data
/// that end on a block boundary, followed by the decoded form of the next
/// block, is the decoded form of both together.
pub proof fn lemma_decoded_data_grows(data: Seq<u8>, done: int, size: int)
    requires
        0 <= done,
        done % 256 == 0,
        0 <= size <= 256,
        done + size <= data.len(),
    ensures
        decoded_data(data.take(done)) + decoded_block(data.subrange(done, done + size))
            == decoded_data(data.take(done + size)),
{
    let left = decoded_data(data.take(done)) + decoded_block(data.subrange(done, done + size));
    let right = decoded_data(data.take(done + size));
    assert forall|i: int| 0 <= i < left.len() implies left[i] == right[i] by {
        if i >= done {
            assert((i - done) == i % 256);
        }
    }
}

/// The name of the file that the decoded firmware goes to.
pub const OUTPUT_FILE_NAME: &'static str = "autel.decoded";

/// The encoded firmware that an Autel header at `offset` announces: the
/// bytes after the header, as many as the header says, if the header is
/// valid and the data hold them all.
pub open spec fn autel_payload(file_data: Seq<u8>, offset: int) -> Option<Seq<u8>> {
    if 0 <= offset <= file_data.len() {
        let data = file_data.subrange(offset, file_data.len() as int);
        match autel_header(data) {
            Some(header) => {
                if header.header_size + header.data_size <= data.len() {
                    Some(
                        data.subrange(
                            header.header_size as int,
                            header.header_size + header.data_size,
                        ),
                    )
                } else {
                    None
                }
            },
            None => None,
        }
    } else {
        None
    }
}

/// What the sandbox holds once decoded firmware has been added to the
/// output file. Nothing is staged for firmware without a byte.
pub open spec fn with_decoded(staged: Map<Seq<char>, Staged>, decoded: Seq<u8>) -> Map<
    Seq<char>,
    Staged,
> {
    if decoded.len() == 0 {
        staged
    } else {
        staged.insert(OUTPUT_FILE_NAME@, appended(staged, OUTPUT_FILE_NAME@, decoded))
    }
}

/// The name of the output file is confined.
pub proof fn lemma_output_name_is_confined()
    ensures
        is_confined_name(encode_utf8(OUTPUT_FILE_NAME@)),
{
    reveal_strlit("autel.decoded");
    is_ascii_spec_bytes(OUTPUT_FILE_NAME);
}

/// Decodes `payload` block by block and adds each decoded block to the
/// output file in the sandbox.
fn write_decoded(payload: &[u8], chroot: &mut Chroot) -> (written: bool)
    requires
        old(chroot).well_formed(),
    ensures
        written,
        final(chroot).well_formed(),
        final(chroot).root_dir() == old(chroot).root_dir(),
        final(chroot)@ == with_decoded(old(chroot)@, decoded_data(payload@)),
{
    let ghost before = chroot@;
    let mut done: usize = 0;
    proof {
        lemma_output_name_is_confined();
    }
    while done < payload.len()
        invariant
            done <= payload.len(),
            done % 256 == 0 || done == payload.len(),
            chroot.well_formed(),
            chroot.root_dir() == old(chroot).root_dir(),
            before == old(chroot)@,
            chroot@ == with_decoded(before, decoded_data(payload@.take(done as int))),
            is_confined_name(encode_utf8(OUTPUT_FILE_NAME@)),
        decreases payload.len() - done,
    {
        let remaining = payload.len() - done;
        let size = if remaining < BLOCK_SIZE {
            remaining
        } else {
            BLOCK_SIZE
        };
        let decoded_block = decode_autel_block(slice_subrange(payload, done, done + size));
        proof {
            lemma_decoded_data_grows(payload@, done as int, size as int);
        }
        let ghost staged = chroot@;
        if !chroot.append_to_file(OUTPUT_FILE_NAME, decoded_block.as_slice()) {
            return false;
        }
        proof {
            // what was staged before this block and the block itself make
            // up what is staged now
            if done > 0 {
                assert(staged[OUTPUT_FILE_NAME@].data + decoded_block@ =~= appended(
                    before,
                    OUTPUT_FILE_NAME@,
                    decoded_data(payload@.take(done + size)),
                ).data);
            }
        }
        done = done + size;
    }
    proof {
        assert(payload@.take(payload@.len() as int) =~= payload@);
    }
    true
}

/// Extracts obfuscated Autel firmware that starts at `offset` in
/// `file_data`: the header is checked, the data that it announces are
/// decoded, and the decoded bytes are added to the file `autel.decoded` in
/// the sandbox. Without a sandbox the same checks are made and the same
/// result is returned, and nothing is written.
pub fn autel_deobfuscate(file_data: &[u8], offset: usize, output_directory: Option<&mut Chroot>) -> (result:
    ExtractionResult)
    requires
        output_directory matches Some(chroot) ==> chroot.well_formed(),
    ensures
        result == match autel_payload(file_data@, offset as int) {
            Some(payload) => ExtractionResult { success: true, size: Some(payload.len() as usize) },
            None => ExtractionResult { success: false, size: None },
        },
        output_directory matches Some(chroot) ==> {
            &&& final(chroot).well_formed()
            &&& final(chroot).root_dir() == chroot.root_dir()
            &&& final(chroot)@ == match autel_payload(file_data@, offset as int) {
                Some(payload) => with_decoded(chroot@, decoded_data(payload)),
                None => chroot@,
            }
        },
{
    let failure = ExtractionResult { success: false, size: None };
    if offset > file_data.len() {
        return failure;
    }
    let data = slice_subrange(file_data, offset, file_data.len());
    let autel_header = match parse_autel_header(data) {
        Ok(header) => header,
        Err(_) => {
            return failure;
        },
    };
    let data_start = autel_header.header_size;

    // Get the encoded data
    if data_start > data.len() || autel_header.data_size > data.len() - data_start {
        return failure;
    }
    let autel_data = slice_subrange(data, data_start, data_start + autel_header.data_size);

    // Decode each block of the encoded data and write it, if requested
    if let Some(chroot) = output_directory {
        if !write_decoded(autel_data, chroot) {
            return failure;
        }
    }
    ExtractionResult { success: true, size: Some(autel_header.data_size) }
}

} // verus!
