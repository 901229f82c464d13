use binscan::structures::android_bootimg::parse_android_bootimg_header;
use binscan::structures::autel::parse_autel_header;
use binscan::structures::bmp::{get_dib_header_size, parse_bmp_file_header};
use binscan::structures::common::StructureError;
use binscan::structures::linux::{
    parse_linux_arm64_boot_image_header, parse_linux_arm_zimage_header,
};
use binscan::structures::lzma::parse_lzma_header;

fn lzma_bytes(properties: u8, dictionary: u32, size: u64, trailer: u8) -> Vec<u8> {
    let mut data = vec![properties];
    data.extend_from_slice(&dictionary.to_le_bytes());
    data.extend_from_slice(&size.to_le_bytes());
    data.push(trailer);
    data
}

#[test]
fn lzma_header_is_read() {
    let data = lzma_bytes(0x5D, 0x0080_0000, 0x1234, 0);
    let header = parse_lzma_header(&data).unwrap();
    assert_eq!(header.properties, 0x5D);
    assert_eq!(header.dictionary_size, 0x0080_0000);
    assert_eq!(header.decompressed_size, 0x1234);
}

#[test]
fn lzma_nonzero_trailer_is_rejected() {
    for trailer in [1u8, 0x80, 0xFF] {
        for size in [256u64, 0x1234, u64::MAX] {
            let data = lzma_bytes(0x5D, 0x0080_0000, size, trailer);
            assert_eq!(data.len(), 14);
            assert_eq!(parse_lzma_header(&data).err(), Some(StructureError));
            // the thirteen bytes of the header alone are rejected too
            assert_eq!(parse_lzma_header(&data[..13]).err(), Some(StructureError));
        }
    }
}

#[test]
fn lzma_size_limits() {
    assert!(parse_lzma_header(&lzma_bytes(0x5D, 1, 255, 0)).is_err());
    assert!(parse_lzma_header(&lzma_bytes(0x5D, 1, 0, 0)).is_err());
    assert!(parse_lzma_header(&lzma_bytes(0x5D, 1, 256, 0)).is_ok());
    assert!(parse_lzma_header(&lzma_bytes(0x5D, 1, 0xFFFF_FFFF, 0)).is_ok());
    assert!(parse_lzma_header(&lzma_bytes(0x5D, 1, 0x1_0000_0000, 0)).is_err());
    assert!(parse_lzma_header(&lzma_bytes(0x5D, 1, u64::MAX - 1, 0)).is_err());
}

#[test]
fn lzma_stream_size_is_accepted() {
    let header = parse_lzma_header(&lzma_bytes(0x5D, 1, u64::MAX, 0)).unwrap();
    assert_eq!(header.decompressed_size, 0xFFFF_FFFF_FFFF_FFFF);
}

#[test]
fn lzma_short_data_is_rejected() {
    let data = lzma_bytes(0x5D, 1, 0x1234, 0);
    for len in 0..14 {
        assert!(parse_lzma_header(&data[..len]).is_err());
    }
    let mut longer = data.clone();
    longer.extend_from_slice(&[0xAA; 20]);
    assert!(parse_lzma_header(&longer).is_ok());
}

fn bmp_bytes(size: u32, offset: u32, total: usize) -> Vec<u8> {
    let mut data = b"BM".to_vec();
    data.extend_from_slice(&size.to_le_bytes());
    data.extend_from_slice(&[0; 4]);
    data.extend_from_slice(&offset.to_le_bytes());
    data.resize(total, 0);
    data
}

#[test]
fn bmp_header_is_read() {
    let header = parse_bmp_file_header(&bmp_bytes(100, 54, 100)).unwrap();
    assert_eq!(header.size, 100);
    assert_eq!(header.bitmap_bits_offset, 54);
    let header = parse_bmp_file_header(&bmp_bytes(14, 14, 14)).unwrap();
    assert_eq!(header.size, 14);
    assert_eq!(header.bitmap_bits_offset, 14);
}

#[test]
fn bmp_header_rejections() {
    // the file size is larger than the data
    assert!(parse_bmp_file_header(&bmp_bytes(101, 54, 100)).is_err());
    // the file size is zero
    assert!(parse_bmp_file_header(&bmp_bytes(0, 54, 100)).is_err());
    // the offset is zero
    assert!(parse_bmp_file_header(&bmp_bytes(100, 0, 100)).is_err());
    // the offset is larger than the data
    assert!(parse_bmp_file_header(&bmp_bytes(100, 101, 100)).is_err());
    // the data are shorter than a header
    assert!(parse_bmp_file_header(&bmp_bytes(10, 10, 100)[..13]).is_err());
    assert!(parse_bmp_file_header(&[]).is_err());
    // the offset may be the end of the data
    assert!(parse_bmp_file_header(&bmp_bytes(100, 100, 100)).is_ok());
}

#[test]
fn dib_header_sizes() {
    for size in [12u32, 40, 108, 124] {
        let mut data = size.to_le_bytes().to_vec();
        data.extend_from_slice(&[0xAA; 8]);
        assert_eq!(get_dib_header_size(&data), Ok(size as usize));
    }
    for size in [0u32, 11, 13, 41, 64, 125, 0x0C00_0000, u32::MAX] {
        assert_eq!(get_dib_header_size(&size.to_le_bytes()), Err(StructureError));
    }
}

#[test]
fn dib_header_short_data_is_rejected() {
    assert!(get_dib_header_size(&[]).is_err());
    assert!(get_dib_header_size(&[40, 0, 0]).is_err());
    assert!(get_dib_header_size(&[40, 0, 0, 0]).is_ok());
}

fn autel_bytes(data_size: u32, header_size: u32, copyright: &[u8]) -> Vec<u8> {
    let mut data = b"ECC0101\x00".to_vec();
    data.extend_from_slice(&data_size.to_le_bytes());
    data.extend_from_slice(&header_size.to_le_bytes());
    let mut text = copyright.to_vec();
    text.resize(16, 0);
    data.extend_from_slice(&text);
    data
}

#[test]
fn autel_header_is_read() {
    let header = parse_autel_header(&autel_bytes(0x1234, 0x20, b"Copyright Autel")).unwrap();
    assert_eq!(header.data_size, 0x1234);
    assert_eq!(header.header_size, 0x20);
}

#[test]
fn autel_header_rejections() {
    assert!(parse_autel_header(&autel_bytes(0x1234, 0x21, b"Copyright Autel")).is_err());
    assert!(parse_autel_header(&autel_bytes(0x1234, 0x20, b"Copyright Autex")).is_err());
    assert!(parse_autel_header(&autel_bytes(0x1234, 0x20, b"Copyright Aute")).is_err());
    assert!(parse_autel_header(&autel_bytes(0x1234, 0x20, b"Copyright AutelX")).is_err());
    assert!(parse_autel_header(&autel_bytes(0x1234, 0x20, b"")).is_err());
    assert!(parse_autel_header(&autel_bytes(0x1234, 0x20, b"\xFFopyright Autel")).is_err());
    let valid = autel_bytes(0x1234, 0x20, b"Copyright Autel");
    assert!(parse_autel_header(&valid[..31]).is_err());
    assert!(parse_autel_header(&[]).is_err());
}

#[test]
fn android_bootimg_header_is_read() {
    let mut data = b"ANDROID!".to_vec();
    data.extend_from_slice(&0x0011_2233u32.to_le_bytes());
    data.extend_from_slice(&0x1000_8000u32.to_le_bytes());
    data.extend_from_slice(&0x0044_5566u32.to_le_bytes());
    data.extend_from_slice(&0x1100_0000u32.to_le_bytes());
    let header = parse_android_bootimg_header(&data).unwrap();
    assert_eq!(header.kernel_size, 0x0011_2233);
    assert_eq!(header.kernel_load_address, 0x1000_8000);
    assert_eq!(header.ramdisk_size, 0x0044_5566);
    assert_eq!(header.ramdisk_load_address, 0x1100_0000);
    assert!(parse_android_bootimg_header(&data[..23]).is_err());
    // the fields are not judged
    assert!(parse_android_bootimg_header(&[0xFF; 24]).is_ok());
}

#[test]
fn zimage_byte_orders() {
    let little: Vec<u8> = [0x00u8, 0x00, 0xA0, 0xE1].repeat(8);
    assert_eq!(parse_linux_arm_zimage_header(&little).unwrap().endianness, "little");
    let big: Vec<u8> = [0xE1u8, 0xA0, 0x00, 0x00].repeat(8);
    assert_eq!(parse_linux_arm_zimage_header(&big).unwrap().endianness, "big");
}

#[test]
fn zimage_rejections() {
    let mut data: Vec<u8> = [0x00u8, 0x00, 0xA0, 0xE1].repeat(8);
    data[31] = 0xE2;
    assert!(parse_linux_arm_zimage_header(&data).is_err());
    let mut data: Vec<u8> = [0x00u8, 0x00, 0xA0, 0xE1].repeat(8);
    data[4] = 1;
    assert!(parse_linux_arm_zimage_header(&data).is_err());
    // eight identical words that are no no-op
    let data: Vec<u8> = [0x01u8, 0x00, 0xA0, 0xE1].repeat(8);
    assert!(parse_linux_arm_zimage_header(&data).is_err());
    let data: Vec<u8> = [0x00u8, 0x00, 0xA0, 0xE1].repeat(8);
    assert!(parse_linux_arm_zimage_header(&data[..31]).is_err());
    assert!(parse_linux_arm_zimage_header(&[]).is_err());
}

fn arm64_bytes(image_size: u64, flags: u64, reserved: [u64; 3], pe_offset: u32) -> Vec<u8> {
    let mut data = vec![0x4D, 0x5A, 0x00, 0x91, 0xFF, 0x3F, 0x00, 0x14];
    data.extend_from_slice(&0x0008_0000u64.to_le_bytes());
    data.extend_from_slice(&image_size.to_le_bytes());
    data.extend_from_slice(&flags.to_le_bytes());
    for word in reserved {
        data.extend_from_slice(&word.to_le_bytes());
    }
    data.extend_from_slice(b"ARM\x64");
    data.extend_from_slice(&pe_offset.to_le_bytes());
    assert_eq!(data.len(), 64);
    data.extend_from_slice(b"PE\x00\x00");
    data
}

#[test]
fn arm64_header_is_read() {
    let header =
        parse_linux_arm64_boot_image_header(&arm64_bytes(0x0123_4567, 0x0A, [0; 3], 64)).unwrap();
    assert_eq!(header.header_size, 64);
    assert_eq!(header.image_size, 0x0123_4567);
    assert_eq!(header.endianness, "little");
    let header =
        parse_linux_arm64_boot_image_header(&arm64_bytes(0x0123_4567, 0x0B, [0; 3], 64)).unwrap();
    assert_eq!(header.endianness, "big");
    let header = parse_linux_arm64_boot_image_header(&arm64_bytes(
        0xFFFF_FFFF_FFFF_FFFF,
        0,
        [0; 3],
        64,
    ))
    .unwrap();
    assert_eq!(header.image_size, u64::MAX);
}

#[test]
fn arm64_reserved_fields_must_be_zero() {
    assert!(parse_linux_arm64_boot_image_header(&arm64_bytes(1, 0, [1, 0, 0], 64)).is_err());
    assert!(parse_linux_arm64_boot_image_header(&arm64_bytes(1, 0, [0, 1, 0], 64)).is_err());
    assert!(parse_linux_arm64_boot_image_header(&arm64_bytes(1, 0, [0, 0, 1 << 63], 64)).is_err());
}

#[test]
fn arm64_reserved_flags_must_be_zero() {
    assert!(parse_linux_arm64_boot_image_header(&arm64_bytes(1, 0x0F, [0; 3], 64)).is_ok());
    assert!(parse_linux_arm64_boot_image_header(&arm64_bytes(1, 0x10, [0; 3], 64)).is_err());
    assert!(parse_linux_arm64_boot_image_header(&arm64_bytes(1, 1 << 63, [0; 3], 64)).is_err());
}

#[test]
fn arm64_pe_offset_is_checked() {
    // beyond the data
    assert!(parse_linux_arm64_boot_image_header(&arm64_bytes(1, 0, [0; 3], 67)).is_err());
    assert!(parse_linux_arm64_boot_image_header(&arm64_bytes(1, 0, [0; 3], 68)).is_err());
    assert!(parse_linux_arm64_boot_image_header(&arm64_bytes(1, 0, [0; 3], u32::MAX)).is_err());
    // inside the data, but not at "PE"
    assert!(parse_linux_arm64_boot_image_header(&arm64_bytes(1, 0, [0; 3], 65)).is_err());
    assert!(parse_linux_arm64_boot_image_header(&arm64_bytes(1, 0, [0; 3], 0)).is_err());
    // data that end with the header hold no "PE"
    let data = arm64_bytes(1, 0, [0; 3], 64);
    assert!(parse_linux_arm64_boot_image_header(&data[..64]).is_err());
    assert!(parse_linux_arm64_boot_image_header(&data[..65]).is_err());
    assert!(parse_linux_arm64_boot_image_header(&data[..66]).is_ok());
    assert!(parse_linux_arm64_boot_image_header(&data[..63]).is_err());
}
