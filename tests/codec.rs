use klstore::buffer::{
    append_buffer, append_i64, append_u128, append_u32, append_u64, read_bytes_copy, read_i16,
    read_i16_be, read_i32, read_i32_be, read_i64, read_i64_be, read_i8, read_i8_be, read_u128,
    read_u128_be, read_u16, read_u16_be, read_u32, read_u32_be, read_u64, read_u64_be,
};
use klstore::StoreError;

#[test]
fn u32_round_trip() {
    let mut buf: Vec<u8> = Vec::new();
    append_u32(&mut buf, 0x0102_0304);
    assert_eq!(buf, vec![4, 3, 2, 1]);
    assert_eq!(read_u32(&buf, 0).unwrap(), 0x0102_0304);
}

#[test]
fn little_endian_reads() {
    let buf: Vec<u8> = (1u8..=16).collect();
    assert_eq!(read_u16(&buf, 0).unwrap(), 0x0201);
    assert_eq!(read_u64(&buf, 8).unwrap(), 0x100f_0e0d_0c0b_0a09);
    assert_eq!(read_u128(&buf, 0).unwrap(), u128::from_le_bytes(buf.clone().try_into().unwrap()));
    assert_eq!(read_i8(&[0xff], 0).unwrap(), -1);
    assert_eq!(read_i16(&[0xfe, 0xff], 0).unwrap(), -2);
    assert_eq!(read_i32(&[0x00, 0x00, 0x00, 0x80], 0).unwrap(), i32::MIN);
    assert_eq!(read_i64(&(-5i64).to_le_bytes(), 0).unwrap(), -5);
}

#[test]
fn big_endian_reads() {
    assert_eq!(read_u16_be(&[1, 2], 0).unwrap(), 0x0102);
    assert_eq!(read_u32_be(&[1, 2, 3, 4], 0).unwrap(), 0x0102_0304);
    assert_eq!(read_u64_be(&7u64.to_be_bytes(), 0).unwrap(), 7);
    assert_eq!(read_u128_be(&9u128.to_be_bytes(), 0).unwrap(), 9);
    assert_eq!(read_i8_be(&[0x80], 0).unwrap(), -128);
    assert_eq!(read_i16_be(&[0xff, 0xfe], 0).unwrap(), -2);
    assert_eq!(read_i32_be(&(-70000i32).to_be_bytes(), 0).unwrap(), -70000);
    assert_eq!(read_i64_be(&i64::MIN.to_be_bytes(), 0).unwrap(), i64::MIN);
}

#[test]
fn reads_past_the_end_are_bad_data() {
    let buf = vec![1u8, 2, 3];
    assert!(matches!(read_u32(&buf, 0), Err(StoreError::BadData(_))));
    assert!(matches!(read_u16(&buf, 2), Err(StoreError::BadData(_))));
    assert!(matches!(read_u16(&buf, 7), Err(StoreError::BadData(_))));
    assert!(matches!(read_i8(&buf, 3), Err(StoreError::BadData(_))));
    assert!(read_u16(&buf, 1).is_ok());
}

#[test]
fn appends_are_little_endian() {
    let mut buf: Vec<u8> = vec![9];
    append_u64(&mut buf, 1);
    append_i64(&mut buf, -1);
    append_u128(&mut buf, u128::MAX - 1);
    append_buffer(&mut buf, &[7, 8]);
    let mut expected = vec![9u8];
    expected.extend_from_slice(&1u64.to_le_bytes());
    expected.extend_from_slice(&(-1i64).to_le_bytes());
    expected.extend_from_slice(&(u128::MAX - 1).to_le_bytes());
    expected.extend_from_slice(&[7, 8]);
    assert_eq!(buf, expected);
    assert_eq!(read_bytes_copy(&buf, 33, 2), vec![7, 8]);
}

#[test]
fn error_text_names_the_kind() {
    assert_eq!(StoreError::BadData("x".to_string()).to_string(), "BadData(x)");
    assert_eq!(StoreError::IOError("io".to_string()).to_string(), "IOError(io)");
    assert_eq!(StoreError::KeyspaceNotFound.to_string(), "KeyspaceNotFound");
    assert_eq!(StoreError::KeyspaceAlreadyExists.to_string(), "KeyspaceAlreadyExists");
}
