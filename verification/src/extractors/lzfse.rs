//! The extractor for LZFSE streams: the chain of block headers tells how
//! long the stream is and how many bytes it decodes to; the decoding is the
//! work of the reference implementation, reached through the `lzfse` crate.

use crate::common::{is_offset_safe, offset_is_safe};
use crate::extractors::common::{Chroot, ExtractionResult, Staged};
use crate::extractors::common::{Extractor, ExtractorType, InternalExtractor};
use crate::extractors::lzma::{lemma_output_name_is_confined, OUTPUT_FILE_NAME};
use crate::structures::lzfse::{lzfse_block, parse_lzfse_block_header};
use vstd::prelude::*;
use vstd::slice::slice_subrange;

verus! {

/// Describes the extractor of LZFSE streams.
pub fn lzfse_extractor() -> (extractor: Extractor)
    ensures
        extractor.utility == ExtractorType::Internal(InternalExtractor::Lzfse),
{
    Extractor { utility: ExtractorType::Internal(InternalExtractor::Lzfse) }
}

/// What the block headers of a stream add up to.
#[derive(Debug, Clone, Copy, PartialEq, Eq)]
pub struct StreamExtent {
    /// The length of the stream: headers and payloads of all its blocks,
    /// the closing block included.
    pub source_size: usize,
    /// The number of bytes that the stream decodes to.
    pub uncompressed_size: usize,
}

/// The extent of the stream whose blocks are walked from offset `at`, where
/// the blocks before `at` decode to `total` bytes. The walk ends with the
/// block that closes the stream. There is no extent if a header is not
/// recognized, if the step to the next header is not safe (which a block
/// without a byte never is), or if a sum does not fit the machine.
pub open spec fn walk_from(data: Seq<u8>, at: int, total: int) -> Option<StreamExtent>
    decreases data.len() - at,
{
    if 0 <= at <= data.len() {
        match lzfse_block(data.subrange(at, data.len() as int)) {
            Some(block) => {
                let next = at + block.header_size + block.data_size;
                let sum = total + block.uncompressed_size;
                if next > usize::MAX || sum > usize::MAX {
                    None
                } else if block.eof {
                    Some(
                        StreamExtent {
                            source_size: next as usize,
                            uncompressed_size: sum as usize,
                        },
                    )
                } else if offset_is_safe(
                    data.len() as usize,
                    next as usize,
                    Some(at as usize),
                ) {
                    walk_from(data, next, sum)
                } else {
                    None
                }
            },
            None => None,
        }
    } else {
        None
    }
}

/// The extent of the LZFSE stream at the start of `data`.
pub open spec fn stream_extent(data: Seq<u8>) -> Option<StreamExtent> {
    walk_from(data, 0, 0)
}

/// Walks the chain of block headers from the start of `data` to the block
/// that closes the stream, and adds up what the headers report.
pub fn walk_lzfse_blocks(data: &[u8]) -> (extent: Option<StreamExtent>)
    ensures
        extent == stream_extent(data@),
{
    let available = data.len();
    let mut at: usize = 0;
    let mut total: usize = 0;
    loop
        invariant
            available == data@.len(),
            at <= available,
            stream_extent(data@) == walk_from(data@, at as int, total as int),
        decreases available - at,
    {
        let block = match parse_lzfse_block_header(slice_subrange(data, at, available)) {
            Ok(block) => block,
            Err(_) => {
                return None;
            },
        };
        let block_size = match block.header_size.checked_add(block.data_size) {
            Some(block_size) => block_size,
            None => {
                return None;
            },
        };
        let next = match at.checked_add(block_size) {
            Some(next) => next,
            None => {
                return None;
            },
        };
        let sum = match total.checked_add(block.uncompressed_size) {
            Some(sum) => sum,
            None => {
                return None;
            },
        };
        if block.eof {
            return Some(StreamExtent { source_size: next, uncompressed_size: sum });
        }
        // A block without a byte would be walked forever: the guard refuses
        // a step that does not advance, and one that leaves the data
        if !is_offset_safe(available, next, Some(at)) {
            return None;
        }
        at = next;
        total = sum;
    }
}

/// A stream that has an extent lies within the data.
pub proof fn lemma_extent_is_within(data: Seq<u8>, at: int, total: int)
    requires
        walk_from(data, at, total) is Some,
    ensures
        at <= walk_from(data, at, total).unwrap().source_size <= data.len(),
        total <= walk_from(data, at, total).unwrap().uncompressed_size,
    decreases data.len() - at,
{
    let block = lzfse_block(data.subrange(at, data.len() as int)).unwrap();
    let next = at + block.header_size + block.data_size;
    if !block.eof {
        lemma_extent_is_within(data, next, total + block.uncompressed_size);
    }
}

/// A walk does not depend on what lies before it: walked in the data from
/// `start` on, the same blocks give the same extent, counted from `start`
/// and from the `base` bytes that the blocks before decode to.
proof fn lemma_walk_from_later_start(data: Seq<u8>, start: int, at: int, total: int, base: int)
    requires
        0 <= start <= at <= data.len() <= usize::MAX,
        0 <= base <= total,
        walk_from(data, at, total) is Some,
    ensures
        walk_from(data.subrange(start, data.len() as int), at - start, total - base) is Some,
        walk_from(data.subrange(start, data.len() as int), at - start, total - base).unwrap().source_size
            + start == walk_from(data, at, total).unwrap().source_size,
        walk_from(
            data.subrange(start, data.len() as int),
            at - start,
            total - base,
        ).unwrap().uncompressed_size + base == walk_from(data, at, total).unwrap().uncompressed_size,
    decreases data.len() - at,
{
    let later = data.subrange(start, data.len() as int);
    assert(later.subrange(at - start, later.len() as int) =~= data.subrange(
        at,
        data.len() as int,
    ));
    let block = lzfse_block(data.subrange(at, data.len() as int)).unwrap();
    if !block.eof {
        lemma_walk_from_later_start(
            data,
            start,
            at + block.header_size + block.data_size,
            total + block.uncompressed_size,
            base,
        );
    }
}

/// The totals of a stream are the sums of what its blocks contribute: a
/// stream whose first block does not close it is as long as that block and
/// the stream of the blocks after it together, and decodes to as many bytes
/// as the two together.
pub proof fn lemma_extent_adds_up(data: Seq<u8>)
    requires
        data.len() <= usize::MAX,
        stream_extent(data) is Some,
        lzfse_block(data) is Some,
        !lzfse_block(data).unwrap().eof,
    ensures
        ({
            let block = lzfse_block(data).unwrap();
            let block_size = block.header_size + block.data_size;
            let rest = stream_extent(data.subrange(block_size, data.len() as int));
            &&& 0 < block_size < data.len()
            &&& rest is Some
            &&& stream_extent(data).unwrap().source_size == block_size + rest.unwrap().source_size
            &&& stream_extent(data).unwrap().uncompressed_size == block.uncompressed_size
                + rest.unwrap().uncompressed_size
        }),
{
    assert(data.subrange(0, data.len() as int) =~= data);
    let block = lzfse_block(data).unwrap();
    let block_size = block.header_size + block.data_size;
    lemma_walk_from_later_start(
        data,
        block_size,
        block_size,
        block.uncompressed_size as int,
        block.uncompressed_size as int,
    );
}

/// The stream that is nothing but the closing block has the length of that
/// block and decodes to nothing.
pub proof fn lemma_extent_of_closing_block(data: Seq<u8>)
    requires
        lzfse_block(data) is Some,
        lzfse_block(data).unwrap().eof,
    ensures
        stream_extent(data) == Some(StreamExtent { source_size: 4, uncompressed_size: 0 }),
{
    assert(data.subrange(0, data.len() as int) =~= data);
}

/// What decoding the LZFSE stream `source` into a buffer of `capacity`
/// bytes writes to the start of the buffer. There is no result where the
/// buffer is filled to its end; a stream that is not valid writes nothing.
pub uninterp spec fn lzfse_decoding(source: Seq<u8>, capacity: nat) -> Option<Seq<u8>>;

/// `lzfse::decode_buffer`: decodes `source` into `output`, which keeps its
/// length, and returns the number of bytes written. That number is below
/// the length of the buffer: the crate reports a buffer that was filled to
/// its end as too small. An invalid stream is reported as zero bytes
/// written.
#[verifier::external_body]
fn lzfse_decode(source: &[u8], output: &mut Vec<u8>) -> (written: Option<usize>)
    ensures
        final(output)@.len() == old(output)@.len(),
        match written {
            Some(count) => count < old(output)@.len() && lzfse_decoding(
                source@,
                old(output)@.len(),
            ) == Some(final(output)@.take(count as int)),
            None => lzfse_decoding(source@, old(output)@.len()) is None,
        },
{
    lzfse::decode_buffer(source, output.as_mut_slice()).ok()
}

/// Whether the decoder wrote exactly the bytes that the headers announce.
/// The decoder gets one byte more than that to write to, since it cannot
/// tell a buffer that was just large enough from one that was too small.
pub fn is_exact_decode(written: Option<usize>, expected: usize) -> (exact: bool)
    ensures
        exact == (written == Some(expected)),
{
    match written {
        Some(count) => count == expected,
        None => false,
    }
}

/// What the stream at `offset` in `file_data` is extracted to: the length
/// of the stream and the bytes that it decodes to, if the headers give an
/// extent and the stream decodes to exactly as many bytes as they announce.
pub open spec fn lzfse_extraction(file_data: Seq<u8>, offset: int) -> Option<(usize, Seq<u8>)> {
    if 0 <= offset <= file_data.len() {
        let data = file_data.subrange(offset, file_data.len() as int);
        match stream_extent(data) {
            Some(extent) => {
                if extent.uncompressed_size < usize::MAX {
                    match lzfse_decoding(
                        data.take(extent.source_size as int),
                        (extent.uncompressed_size + 1) as nat,
                    ) {
                        Some(decoded) => {
                            if decoded.len() == extent.uncompressed_size {
                                Some((extent.source_size, decoded))
                            } else {
                                None
                            }
                        },
                        None => None,
                    }
                } else {
                    None
                }
            },
            None => None,
        }
    } else {
        None
    }
}

/// Extracts the LZFSE stream that starts at `offset` in `file_data`: the
/// block headers are walked, the stream is decoded, and the decoded bytes
/// become the file `decompressed.bin` in the sandbox. The size of the
/// result is the length of the stream. Without a sandbox the stream is
/// decoded all the same, and nothing is written. A stream that fails leaves
/// the sandbox as it was.
pub fn lzfse_decompress(file_data: &[u8], offset: usize, output_directory: Option<&mut Chroot>) -> (result:
    ExtractionResult)
    requires
        output_directory matches Some(chroot) ==> chroot.well_formed(),
    ensures
        result == match lzfse_extraction(file_data@, offset as int) {
            Some((size, decoded)) => ExtractionResult { success: true, size: Some(size) },
            None => ExtractionResult { success: false, size: None },
        },
        output_directory matches Some(chroot) ==> {
            &&& final(chroot).well_formed()
            &&& final(chroot).root_dir() == chroot.root_dir()
            &&& final(chroot)@ == match lzfse_extraction(file_data@, offset as int) {
                Some((size, decoded)) => chroot@.insert(
                    OUTPUT_FILE_NAME@,
                    Staged { data: decoded, replaces: true },
                ),
                None => chroot@,
            }
        },
{
    let failure = ExtractionResult { success: false, size: None };
    if offset > file_data.len() {
        return failure;
    }
    let data = slice_subrange(file_data, offset, file_data.len());
    let extent = match walk_lzfse_blocks(data) {
        Some(extent) => extent,
        None => {
            return failure;
        },
    };
    proof {
        lemma_extent_is_within(data@, 0, 0);
    }
    let src_size = extent.source_size;
    let dst_size = extent.uncompressed_size;
    if dst_size == usize::MAX {
        return failure;
    }
    // The decoder cannot tell a buffer that was just large enough from one
    // that was too small, so it gets one byte more than it should need
    let mut dst: Vec<u8> = vec![0u8; dst_size + 1];
    let written = lzfse_decode(slice_subrange(data, 0, src_size), &mut dst);
    if !is_exact_decode(written, dst_size) {
        return failure;
    }
    if let Some(chroot) = output_directory {
        proof {
            lemma_output_name_is_confined();
        }
        if !chroot.create_file(OUTPUT_FILE_NAME, slice_subrange(dst.as_slice(), 0, dst_size)) {
            return failure;
        }
    }
    ExtractionResult { success: true, size: Some(src_size) }
}

} // verus!
