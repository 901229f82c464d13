use binscan::endian::{read_u16_le, read_u32_le, read_u64_le, read_uint};

#[test]
fn read_uint_little_endian() {
    let data = [0x01u8, 0x02, 0x03, 0x04, 0x05, 0x06, 0x07, 0x08, 0x09];
    assert_eq!(read_uint(&data, 0, 1, false), 0x01);
    assert_eq!(read_uint(&data, 0, 2, false), 0x0201);
    assert_eq!(read_uint(&data, 0, 3, false), 0x030201);
    assert_eq!(read_uint(&data, 0, 4, false), 0x04030201);
    assert_eq!(read_uint(&data, 0, 8, false), 0x0807060504030201);
    assert_eq!(read_uint(&data, 1, 8, false), 0x0908070605040302);
}

#[test]
fn read_uint_big_endian() {
    let data = [0x01u8, 0x02, 0x03, 0x04, 0x05, 0x06, 0x07, 0x08, 0x09];
    assert_eq!(read_uint(&data, 0, 1, true), 0x01);
    assert_eq!(read_uint(&data, 0, 2, true), 0x0102);
    assert_eq!(read_uint(&data, 0, 3, true), 0x010203);
    assert_eq!(read_uint(&data, 0, 4, true), 0x01020304);
    assert_eq!(read_uint(&data, 0, 8, true), 0x0102030405060708);
    assert_eq!(read_uint(&data, 1, 8, true), 0x0203040506070809);
}

#[test]
fn read_uint_of_no_bytes_is_zero() {
    assert_eq!(read_uint(&[0xFF], 0, 0, false), 0);
    assert_eq!(read_uint(&[0xFF], 1, 0, true), 0);
}

#[test]
fn read_uint_of_all_ones() {
    assert_eq!(read_uint(&[0xFF; 8], 0, 8, false), u64::MAX);
    assert_eq!(read_uint(&[0xFF; 8], 0, 8, true), u64::MAX);
}

#[test]
fn fixed_width_readers_agree_with_std() {
    let data = [0xDEu8, 0xAD, 0xBE, 0xEF, 0x01, 0x23, 0x45, 0x67, 0x89];
    assert_eq!(read_u16_le(&data, 1), u16::from_le_bytes([0xAD, 0xBE]));
    assert_eq!(read_u32_le(&data, 0), u32::from_le_bytes([0xDE, 0xAD, 0xBE, 0xEF]));
    assert_eq!(
        read_u64_le(&data, 1),
        u64::from_le_bytes([0xAD, 0xBE, 0xEF, 0x01, 0x23, 0x45, 0x67, 0x89])
    );
}
