use binscan::extractors::lzfse::{walk_lzfse_blocks, StreamExtent};
use binscan::structures::lzfse::{parse_lzfse_block_header, LZFSEBlock};

fn end_of_stream() -> Vec<u8> {
    b"bvx$".to_vec()
}

fn uncompressed(raw: &[u8]) -> Vec<u8> {
    let mut block = b"bvx-".to_vec();
    block.extend_from_slice(&(raw.len() as u32).to_le_bytes());
    block.extend_from_slice(raw);
    block
}

fn lzvn(n_raw: u32, payload: &[u8]) -> Vec<u8> {
    let mut block = b"bvxn".to_vec();
    block.extend_from_slice(&n_raw.to_le_bytes());
    block.extend_from_slice(&(payload.len() as u32).to_le_bytes());
    block.extend_from_slice(payload);
    block
}

fn v2_header(n_raw: u32, literal_payload: u64, lmd_payload: u64, header_size: u64) -> Vec<u8> {
    let mut block = b"bvx2".to_vec();
    block.extend_from_slice(&n_raw.to_le_bytes());
    let packed1: u64 = 0xF_FFFF | (literal_payload << 20) | (0xF_FFFF << 40) | (7 << 60);
    let packed2: u64 = 0xFF_FFFF_FFFF | (lmd_payload << 40) | (7 << 60);
    let packed3: u64 = header_size | (0x3FFF_FFFF << 32);
    block.extend_from_slice(&packed1.to_le_bytes());
    block.extend_from_slice(&packed2.to_le_bytes());
    block.extend_from_slice(&packed3.to_le_bytes());
    block
}

#[test]
fn end_of_stream_block() {
    assert_eq!(
        parse_lzfse_block_header(&end_of_stream()),
        Ok(LZFSEBlock { eof: true, data_size: 0, header_size: 4, uncompressed_size: 0 })
    );
}

#[test]
fn uncompressed_block() {
    assert_eq!(
        parse_lzfse_block_header(&uncompressed(b"hello")),
        Ok(LZFSEBlock { eof: false, data_size: 5, header_size: 8, uncompressed_size: 5 })
    );
    assert!(parse_lzfse_block_header(&uncompressed(b"hello")[..7]).is_err());
}

#[test]
fn lzvn_block() {
    assert_eq!(
        parse_lzfse_block_header(&lzvn(1000, &[0; 20])),
        Ok(LZFSEBlock { eof: false, data_size: 20, header_size: 12, uncompressed_size: 1000 })
    );
    assert!(parse_lzfse_block_header(&lzvn(1000, &[0; 20])[..11]).is_err());
}

#[test]
fn compressed_v1_block() {
    let mut block = b"bvx1".to_vec();
    for field in [5000u32, 99, 7, 8, 300, 45] {
        block.extend_from_slice(&field.to_le_bytes());
    }
    assert_eq!(block.len(), 28);
    assert_eq!(
        parse_lzfse_block_header(&block),
        Ok(LZFSEBlock { eof: false, data_size: 345, header_size: 770, uncompressed_size: 5000 })
    );
    assert!(parse_lzfse_block_header(&block[..27]).is_err());
}

#[test]
fn compressed_v2_block() {
    let block = v2_header(70_000, 0x12345, 0xABCDE, 0x0001_0203);
    assert_eq!(
        parse_lzfse_block_header(&block),
        Ok(LZFSEBlock {
            eof: false,
            data_size: 0x12345 + 0xABCDE,
            header_size: 0x0001_0203,
            uncompressed_size: 70_000,
        })
    );
    assert!(parse_lzfse_block_header(&block[..31]).is_err());
}

#[test]
fn unknown_magic_is_rejected() {
    assert!(parse_lzfse_block_header(b"bvx3").is_err());
    assert!(parse_lzfse_block_header(b"BVX$").is_err());
    assert!(parse_lzfse_block_header(b"bvx").is_err());
    assert!(parse_lzfse_block_header(b"").is_err());
    assert!(parse_lzfse_block_header(&[0; 64]).is_err());
}

#[test]
fn walk_over_three_blocks() {
    let mut stream = uncompressed(b"0123456789");
    stream.extend_from_slice(&lzvn(4096, &[0xAA; 33]));
    stream.extend_from_slice(&end_of_stream());
    let length = stream.len();
    assert_eq!(length, (8 + 10) + (12 + 33) + 4);
    // what follows the closing block is not walked
    stream.extend_from_slice(&uncompressed(b"not part of the stream"));
    assert_eq!(
        walk_lzfse_blocks(&stream),
        Some(StreamExtent { source_size: length, uncompressed_size: 10 + 4096 })
    );
    assert_eq!(
        walk_lzfse_blocks(&stream[..length]),
        Some(StreamExtent { source_size: length, uncompressed_size: 10 + 4096 })
    );
}

#[test]
fn walk_of_a_lone_end_of_stream() {
    assert_eq!(
        walk_lzfse_blocks(&end_of_stream()),
        Some(StreamExtent { source_size: 4, uncompressed_size: 0 })
    );
}

#[test]
fn walk_without_end_of_stream_fails() {
    let mut stream = uncompressed(b"0123456789");
    stream.extend_from_slice(&lzvn(4096, &[0xAA; 33]));
    assert_eq!(walk_lzfse_blocks(&stream), None);
    stream.extend_from_slice(b"bvx");
    assert_eq!(walk_lzfse_blocks(&stream), None);
    assert_eq!(walk_lzfse_blocks(b""), None);
    assert_eq!(walk_lzfse_blocks(b"garbage that is no stream"), None);
}

#[test]
fn walk_stops_at_a_truncated_block() {
    let mut stream = uncompressed(b"0123456789");
    stream.truncate(12);
    stream.extend_from_slice(&end_of_stream());
    assert_eq!(walk_lzfse_blocks(&stream), None);
}

#[test]
fn walk_refuses_a_block_without_a_byte() {
    // a packed header that reports no header and no payload would never advance
    let mut stream = v2_header(10, 0, 0, 0);
    stream.extend_from_slice(&end_of_stream());
    assert_eq!(walk_lzfse_blocks(&stream), None);
    // the same header, reporting its true size, is walked
    let mut stream = v2_header(10, 0, 0, 32);
    stream.extend_from_slice(&end_of_stream());
    assert_eq!(
        walk_lzfse_blocks(&stream),
        Some(StreamExtent { source_size: 36, uncompressed_size: 10 })
    );
}
