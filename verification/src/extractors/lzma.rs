//! The extractor for legacy LZMA streams. The decoding itself is the work
//! of liblzma, reached through the `xz2` crate; what is decided here is how
//! much room the decoder is given, and what becomes of what it returns.

use crate::extractors::common::{appended, is_confined_name, Chroot, Staged};
use crate::extractors::common::{ExtractionResult, Extractor, ExtractorType, InternalExtractor};
use vstd::prelude::*;
use vstd::slice::slice_subrange;
use vstd::string::is_ascii_spec_bytes;
use vstd::utf8::encode_utf8;
use xz2::stream::{Action, Status, Stream};

verus! {

/// What one attempt at decoding leads to.
#[derive(Debug, Clone, Copy, PartialEq, Eq)]
pub enum AttemptVerdict {
    /// The stream is complete; it takes this many bytes of the input.
    Done(usize),
    /// The output buffer was filled before the stream ended: the attempt
    /// is made again with a buffer of twice the size.
    Grow,
    /// The stream is given up.
    Failed,
}

/// The size of the output buffer of the first attempt.
pub const INITIAL_CAPACITY: usize = 8192;

/// The size of the largest output buffer that is tried.
pub const MAX_CAPACITY: usize = 0x8000_0000;

/// The memory that the decoder may use, in bytes.
pub const MEMORY_LIMIT: u64 = 0x1_0000_0000;

/// The name of the file that decompressed data go to.
pub const OUTPUT_FILE_NAME: &'static str = "decompressed.bin";

/// What a new decoder for the legacy `.lzma` format, allowed `memlimit`
/// bytes of memory, makes of `input` in one step with room for `capacity`
/// bytes of output: whether it reached the end of the stream, the number of
/// input bytes it consumed, and the bytes it produced. There is no result
/// where the decoder cannot be set up or reports anything but progress or
/// the end of the stream.
pub uninterp spec fn lzma_attempt(input: Seq<u8>, capacity: nat, memlimit: u64) -> Option<
    (bool, u64, Seq<u8>),
>;

/// `Stream::new_lzma_decoder`, then on the new decoder `Stream::process`
/// with the action `Run`, `Stream::total_in` and `Stream::total_out`: one
/// step of a decoder that has seen nothing before, from `input` into
/// `output`. The output buffer keeps its length and holds at its start what
/// was produced, which cannot be more than it has room for. Returned are
/// whether the stream ended, and the two totals.
#[verifier::external_body]
fn decode_attempt(input: &[u8], memlimit: u64, output: &mut Vec<u8>) -> (attempt: Option<
    (bool, u64, u64),
>)
    ensures
        final(output)@.len() == old(output)@.len(),
        match attempt {
            Some((ended, consumed, produced)) => produced <= old(output)@.len() && lzma_attempt(
                input@,
                old(output)@.len(),
                memlimit,
            ) == Some((ended, consumed, final(output)@.take(produced as int))),
            None => lzma_attempt(input@, old(output)@.len(), memlimit) is None,
        },
{
    match Stream::new_lzma_decoder(memlimit) {
        Ok(mut decoder) => match decoder.process(input, output.as_mut_slice(), Action::Run) {
            Ok(Status::Ok) => Some((false, decoder.total_in(), decoder.total_out())),
            Ok(Status::StreamEnd) => Some((true, decoder.total_in(), decoder.total_out())),
            Ok(Status::GetCheck) => None,
            Ok(Status::MemNeeded) => None,
            Err(_) => None,
        },
        Err(_) => None,
    }
}

/// What an attempt leads to that was made with room for `capacity` bytes
/// on `available` bytes of input, and that consumed and produced so many
/// bytes. A stream that ended is complete, unless the decoder claims to
/// have read more than there was. A stream that did not end is tried again
/// if it filled the buffer and a buffer of twice the size may be tried; if
/// it left room in the buffer, the data end before the stream does.
pub open spec fn attempt_verdict(
    ended: bool,
    consumed: int,
    produced: int,
    available: int,
    capacity: int,
) -> AttemptVerdict {
    if ended {
        if 0 <= consumed <= available && available <= usize::MAX {
            AttemptVerdict::Done(consumed as usize)
        } else {
            AttemptVerdict::Failed
        }
    } else if produced == capacity && 0 < capacity && 2 * capacity <= MAX_CAPACITY {
        AttemptVerdict::Grow
    } else {
        AttemptVerdict::Failed
    }
}

/// Judges one attempt at decoding.
pub fn judge_attempt(
    ended: bool,
    consumed: u64,
    produced: u64,
    available: usize,
    capacity: usize,
) -> (verdict: AttemptVerdict)
    ensures
        verdict == attempt_verdict(
            ended,
            consumed as int,
            produced as int,
            available as int,
            capacity as int,
        ),
{
    if ended {
        if consumed <= available as u64 {
            AttemptVerdict::Done(consumed as usize)
        } else {
            AttemptVerdict::Failed
        }
    } else if produced == capacity as u64 && 0 < capacity && capacity <= MAX_CAPACITY / 2 {
        AttemptVerdict::Grow
    } else {
        AttemptVerdict::Failed
    }
}

/// What the attempts that start with room for `capacity` bytes make of
/// `input`: the number of bytes that the stream takes and the bytes that it
/// decodes to, if an attempt reaches the end of the stream.
pub open spec fn decoding_from(input: Seq<u8>, capacity: nat) -> Option<(usize, Seq<u8>)>
    decreases MAX_CAPACITY - capacity,
{
    match lzma_attempt(input, capacity, MEMORY_LIMIT) {
        Some((ended, consumed, decoded)) => {
            let verdict = attempt_verdict(
                ended,
                consumed as int,
                decoded.len() as int,
                input.len() as int,
                capacity as int,
            );
            if verdict is Grow && capacity < 2 * capacity <= MAX_CAPACITY {
                decoding_from(input, 2 * capacity)
            } else {
                match verdict {
                    AttemptVerdict::Done(size) => Some((size, decoded)),
                    _ => None,
                }
            }
        },
        None => None,
    }
}

/// What the LZMA stream at the start of `input` is decoded to: the number
/// of bytes that the stream takes and the bytes that it decodes to. There
/// is no result if `input` does not start with a complete stream, or if
/// the stream decodes to more than the largest buffer holds.
pub open spec fn lzma_decoding(input: Seq<u8>) -> Option<(usize, Seq<u8>)> {
    decoding_from(input, INITIAL_CAPACITY as nat)
}

/// A stream that is decoded lies within the input.
pub proof fn lemma_decoding_is_within(input: Seq<u8>, capacity: nat)
    requires
        decoding_from(input, capacity) is Some,
    ensures
        decoding_from(input, capacity).unwrap().0 <= input.len(),
    decreases MAX_CAPACITY - capacity,
{
    let (ended, consumed, decoded) = lzma_attempt(input, capacity, MEMORY_LIMIT).unwrap();
    if !ended && capacity < 2 * capacity <= MAX_CAPACITY {
        lemma_decoding_is_within(input, 2 * capacity);
    }
}

/// Decodes the LZMA stream at the start of `input`. Returns the number of
/// input bytes that the stream takes and, if `keep` is set, the decoded
/// bytes; returns nothing if the input does not start with a complete
/// stream. The stream is decoded in one step into a buffer; if the buffer
/// proves too small, the step is made again with twice the room.
pub fn lzma_decode(input: &[u8], keep: bool) -> (decoded: Option<(usize, Vec<u8>)>)
    ensures
        match decoded {
            Some((size, data)) => lzma_decoding(input@) matches Some((stream_size, bytes))
                && size == stream_size && data@ == (if keep {
                bytes
            } else {
                Seq::empty()
            }),
            None => lzma_decoding(input@) is None,
        },
{
    let available = input.len();
    let mut capacity: usize = INITIAL_CAPACITY;
    loop
        invariant
            available == input@.len(),
            0 < capacity <= MAX_CAPACITY,
            lzma_decoding(input@) == decoding_from(input@, capacity as nat),
        decreases MAX_CAPACITY - capacity,
    {
        let mut buffer: Vec<u8> = vec![0u8; capacity];
        let (ended, consumed, produced) = match decode_attempt(input, MEMORY_LIMIT, &mut buffer) {
            Some(attempt) => attempt,
            None => {
                return None;
            },
        };
        match judge_attempt(ended, consumed, produced, available, capacity) {
            AttemptVerdict::Done(size) => {
                if keep {
                    buffer.truncate(produced as usize);
                    return Some((size, buffer));
                }
                return Some((size, Vec::new()));
            },
            AttemptVerdict::Grow => {
                capacity = capacity * 2;
            },
            AttemptVerdict::Failed => {
                return None;
            },
        }
    }
}

/// Describes the extractor of LZMA streams.
pub fn lzma_extractor() -> (extractor: Extractor)
    ensures
        extractor.utility == ExtractorType::Internal(InternalExtractor::Lzma),
{
    Extractor { utility: ExtractorType::Internal(InternalExtractor::Lzma) }
}

/// The name of the output file is confined.
pub proof fn lemma_output_name_is_confined()
    ensures
        is_confined_name(encode_utf8(OUTPUT_FILE_NAME@)),
{
    reveal_strlit("decompressed.bin");
    is_ascii_spec_bytes(OUTPUT_FILE_NAME);
}

/// What the sandbox holds once `decoded` has been added to the output file.
pub open spec fn with_output(staged: Map<Seq<char>, Staged>, decoded: Seq<u8>) -> Map<
    Seq<char>,
    Staged,
> {
    staged.insert(OUTPUT_FILE_NAME@, appended(staged, OUTPUT_FILE_NAME@, decoded))
}

/// What the LZMA stream at `offset` in `file_data` is extracted to: the
/// number of bytes that the stream takes and the bytes that it decodes to.
pub open spec fn lzma_extraction(file_data: Seq<u8>, offset: int) -> Option<(usize, Seq<u8>)> {
    if 0 <= offset <= file_data.len() {
        lzma_decoding(file_data.subrange(offset, file_data.len() as int))
    } else {
        None
    }
}

/// The result that is owed for what a stream is extracted to: a stream
/// that is decoded succeeds with its size, anything else fails.
pub open spec fn extraction_result(extraction: Option<(usize, Seq<u8>)>) -> ExtractionResult {
    match extraction {
        Some((size, decoded)) => ExtractionResult { success: true, size: Some(size) },
        None => ExtractionResult { success: false, size: None },
    }
}

/// What the sandbox holds after an extraction: the decoded bytes of a
/// stream are added to the output file, and a failure changes nothing.
pub open spec fn extraction_output(
    staged: Map<Seq<char>, Staged>,
    extraction: Option<(usize, Seq<u8>)>,
) -> Map<Seq<char>, Staged> {
    match extraction {
        Some((size, decoded)) => with_output(staged, decoded),
        None => staged,
    }
}

/// Stages what was decoded, if anything was, and tells the result: the
/// decoded bytes are added to the file `decompressed.bin` in the sandbox,
/// if there is a sandbox, and the size of the stream is reported.
pub fn stage_decoded(decoded: Option<(usize, Vec<u8>)>, output_directory: Option<&mut Chroot>) -> (result:
    ExtractionResult)
    requires
        output_directory matches Some(chroot) ==> chroot.well_formed(),
    ensures
        result == match decoded {
            Some((size, data)) => ExtractionResult { success: true, size: Some(size) },
            None => ExtractionResult { success: false, size: None },
        },
        output_directory matches Some(chroot) ==> {
            &&& final(chroot).well_formed()
            &&& final(chroot).root_dir() == chroot.root_dir()
            &&& final(chroot)@ == match decoded {
                Some((size, data)) => with_output(chroot@, data@),
                None => chroot@,
            }
        },
{
    let failure = ExtractionResult { success: false, size: None };
    match decoded {
        Some((size, data)) => {
            if let Some(chroot) = output_directory {
                proof {
                    lemma_output_name_is_confined();
                }
                if !chroot.append_to_file(OUTPUT_FILE_NAME, data.as_slice()) {
                    return failure;
                }
            }
            ExtractionResult { success: true, size: Some(size) }
        },
        None => failure,
    }
}

/// Decompresses the LZMA stream that starts at `offset` in `file_data` and
/// adds the decompressed bytes to the file `decompressed.bin` in the
/// sandbox. The size of the result is that of the compressed stream.
/// Without a sandbox the stream is decoded all the same, the same result is
/// returned, and nothing is kept. A stream that fails leaves the sandbox as
/// it was.
pub fn lzma_decompress(file_data: &[u8], offset: usize, output_directory: Option<&mut Chroot>) -> (result:
    ExtractionResult)
    requires
        output_directory matches Some(chroot) ==> chroot.well_formed(),
    ensures
        result == extraction_result(lzma_extraction(file_data@, offset as int)),
        output_directory matches Some(chroot) ==> {
            &&& final(chroot).well_formed()
            &&& final(chroot).root_dir() == chroot.root_dir()
            &&& final(chroot)@ == extraction_output(
                chroot@,
                lzma_extraction(file_data@, offset as int),
            )
        },
{
    if offset > file_data.len() {
        return ExtractionResult { success: false, size: None };
    }
    let input = slice_subrange(file_data, offset, file_data.len());
    let keep = output_directory.is_some();
    stage_decoded(lzma_decode(input, keep), output_directory)
}

} // verus!
