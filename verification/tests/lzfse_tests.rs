use binscan::extractors::common::{Chroot, ExtractionResult, ExtractorType, InternalExtractor};
use binscan::extractors::lzfse::{
    is_exact_decode, lzfse_decompress, lzfse_extractor, walk_lzfse_blocks,
};
use binscan::extractors::run_internal;

fn lzfse_compress(data: &[u8]) -> Vec<u8> {
    let mut out = vec![0u8; data.len() + 4096];
    let written = lzfse::encode_buffer(data, &mut out).unwrap();
    out.truncate(written);
    out
}

fn stored_stream(raw: &[u8]) -> Vec<u8> {
    let mut stream = b"bvx-".to_vec();
    stream.extend_from_slice(&(raw.len() as u32).to_le_bytes());
    stream.extend_from_slice(raw);
    stream.extend_from_slice(b"bvx$");
    stream
}

#[test]
fn lzfse_extractor_names_the_internal_function() {
    assert_eq!(
        lzfse_extractor().utility,
        ExtractorType::Internal(InternalExtractor::Lzfse)
    );
}

#[test]
fn exact_decode_is_told_from_the_rest() {
    assert!(is_exact_decode(Some(10), 10));
    assert!(!is_exact_decode(Some(9), 10));
    assert!(!is_exact_decode(Some(11), 10));
    assert!(!is_exact_decode(None, 10));
    assert!(is_exact_decode(Some(0), 0));
    assert!(!is_exact_decode(None, 0));
}

#[test]
fn stored_stream_is_extracted() {
    let raw = b"stored bytes, not compressed";
    let stream = stored_stream(raw);
    let mut data = vec![0x77; 3];
    data.extend_from_slice(&stream);
    data.extend_from_slice(b"what follows the stream");

    let mut chroot = Chroot::new("out");
    let result = lzfse_decompress(&data, 3, Some(&mut chroot));
    assert_eq!(result, ExtractionResult { success: true, size: Some(stream.len()) });
    assert_eq!(chroot.contents("decompressed.bin"), Some(&raw.to_vec()));
    assert!(chroot.file(0).replaces);
}

#[test]
fn compressed_streams_are_extracted() {
    let inputs: Vec<Vec<u8>> = vec![
        b"short".to_vec(),
        (0..300u32).map(|i| (i % 7) as u8).collect(),
        (0..100_000u32).map(|i| ((i / 3) % 251) as u8).collect(),
        (0..5000u32).map(|i| (i.wrapping_mul(2_654_435_761) >> 24) as u8).collect(),
    ];
    for original in inputs {
        let stream = lzfse_compress(&original);
        let extent = walk_lzfse_blocks(&stream).unwrap();
        assert_eq!(extent.source_size, stream.len());
        assert_eq!(extent.uncompressed_size, original.len());

        let mut chroot = Chroot::new("out");
        let result = lzfse_decompress(&stream, 0, Some(&mut chroot));
        assert_eq!(result, ExtractionResult { success: true, size: Some(stream.len()) });
        assert_eq!(chroot.contents("decompressed.bin"), Some(&original));

        assert_eq!(lzfse_decompress(&stream, 0, None), result);
        assert_eq!(run_internal(InternalExtractor::Lzfse, &stream, 0, None), result);
    }
}

#[test]
fn extraction_replaces_earlier_output() {
    let stream = stored_stream(b"new");
    let mut chroot = Chroot::new("out");
    assert!(chroot.append_to_file("decompressed.bin", b"old contents"));
    assert!(lzfse_decompress(&stream, 0, Some(&mut chroot)).success);
    assert_eq!(chroot.contents("decompressed.bin"), Some(&b"new".to_vec()));
    assert!(chroot.file(0).replaces);
}

#[test]
fn failures_leave_the_sandbox_alone() {
    let failure = ExtractionResult { success: false, size: None };
    let original: Vec<u8> = (0..10_000u32).map(|i| (i % 13) as u8).collect();
    let stream = lzfse_compress(&original);
    let mut chroot = Chroot::new("out");

    // the closing block is missing
    assert_eq!(lzfse_decompress(&stream[..stream.len() - 4], 0, Some(&mut chroot)), failure);
    // the stream is cut in a payload
    assert_eq!(lzfse_decompress(&stream[..stream.len() / 2], 0, Some(&mut chroot)), failure);
    // no stream at all
    assert_eq!(lzfse_decompress(b"no stream", 0, Some(&mut chroot)), failure);
    assert_eq!(lzfse_decompress(&[], 0, Some(&mut chroot)), failure);
    assert_eq!(lzfse_decompress(&stream, stream.len() + 1, Some(&mut chroot)), failure);
    assert_eq!(lzfse_decompress(&stream, 1, Some(&mut chroot)), failure);
    assert_eq!(chroot.file_count(), 0);
}

#[test]
fn headers_that_lie_about_the_size_fail() {
    let failure = ExtractionResult { success: false, size: None };
    // an LZVN block that announces more bytes than its payload decodes to
    let original = vec![0x61u8; 64];
    let stream = lzfse_compress(&original);
    if &stream[..4] == b"bvxn" {
        let mut lying = stream.clone();
        lying[4..8].copy_from_slice(&65u32.to_le_bytes());
        assert_eq!(lzfse_decompress(&lying, 0, None), failure);
        let mut lying = stream.clone();
        lying[4..8].copy_from_slice(&63u32.to_le_bytes());
        assert_eq!(lzfse_decompress(&lying, 0, None), failure);
    }
    assert!(lzfse_decompress(&stream, 0, None).success);
}

#[test]
fn empty_stream_decodes_to_nothing() {
    let mut chroot = Chroot::new("out");
    let result = lzfse_decompress(b"bvx$", 0, Some(&mut chroot));
    assert_eq!(result, ExtractionResult { success: true, size: Some(4) });
    assert_eq!(chroot.contents("decompressed.bin"), Some(&Vec::new()));
}
