//! Extractors: the sandbox they write to, the formats they recover, and the
//! one place where an extractor is run by its name.

use crate::extractors::arcadyan::{extract_obfuscated_lzma, obfuscated_extraction};
use crate::extractors::autel::{autel_deobfuscate, autel_payload};
use crate::extractors::common::{Chroot, ExtractionResult, InternalExtractor};
use crate::extractors::lzfse::{lzfse_decompress, lzfse_extraction};
use crate::extractors::lzma::{lzma_decompress, lzma_extraction};
use vstd::prelude::*;

pub mod arcadyan;
pub mod autel;
pub mod common;
pub mod lzfse;
pub mod lzma;

verus! {

/// What an extractor extracts from the data at `offset`: the number of
/// source bytes that the extracted object takes, and nothing where the
/// extraction fails.
pub open spec fn extracted_size(extractor: InternalExtractor, file_data: Seq<u8>, offset: int) -> Option<
    usize,
> {
    match extractor {
        InternalExtractor::Autel => match autel_payload(file_data, offset) {
            Some(payload) => Some(payload.len() as usize),
            None => None,
        },
        InternalExtractor::Lzfse => match lzfse_extraction(file_data, offset) {
            Some((size, decoded)) => Some(size),
            None => None,
        },
        InternalExtractor::ObfuscatedLzma => match obfuscated_extraction(file_data, offset) {
            Some((size, decoded)) => Some(size),
            None => None,
        },
        InternalExtractor::Lzma => match lzma_extraction(file_data, offset) {
            Some((size, decoded)) => Some(size),
            None => None,
        },
    }
}

/// Runs one of the library's own extractors on the data that start at
/// `offset` in `file_data`. With a sandbox the extracted bytes are staged in
/// it; without one the extractor makes the same checks, returns the same
/// result, and writes nothing. A failed extraction reports no size and
/// leaves the sandbox as it was.
pub fn run_internal(
    extractor: InternalExtractor,
    file_data: &[u8],
    offset: usize,
    output_directory: Option<&mut Chroot>,
) -> (result: ExtractionResult)
    requires
        output_directory matches Some(chroot) ==> chroot.well_formed(),
    ensures
        result == match extracted_size(extractor, file_data@, offset as int) {
            Some(size) => ExtractionResult { success: true, size: Some(size) },
            None => ExtractionResult { success: false, size: None },
        },
        output_directory matches Some(chroot) ==> {
            &&& final(chroot).well_formed()
            &&& final(chroot).root_dir() == chroot.root_dir()
            &&& !result.success ==> final(chroot)@ == chroot@
        },
{
    match extractor {
        InternalExtractor::ObfuscatedLzma => extract_obfuscated_lzma(
            file_data,
            offset,
            output_directory,
        ),
        InternalExtractor::Autel => autel_deobfuscate(file_data, offset, output_directory),
        InternalExtractor::Lzfse => lzfse_decompress(file_data, offset, output_directory),
        InternalExtractor::Lzma => lzma_decompress(file_data, offset, output_directory),
    }
}

} // verus!
