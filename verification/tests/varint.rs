use liqi::error::FormatError;
use liqi::varint::{parse_var_int, MAX_VARINT_LEN};

fn read(bytes: &[u8]) -> (Result<u64, FormatError>, usize) {
    let mut pos: usize = 0;
    let r = parse_var_int(bytes, &mut pos);
    (r, pos)
}

fn encode(mut value: u64) -> Vec<u8> {
    let mut out: Vec<u8> = Vec::new();
    while value >= 128 {
        out.push((value % 128) as u8 | 0x80);
        value /= 128;
    }
    out.push(value as u8);
    out
}

#[test]
fn varint_zero() {
    assert_eq!(read(&[0x00]), (Ok(0), 1));
}

#[test]
fn varint_127_is_one_byte() {
    assert_eq!(read(&[0x7f]), (Ok(127), 1));
}

#[test]
fn varint_128_is_two_bytes() {
    assert_eq!(read(&[0x80, 0x01]), (Ok(128), 2));
}

#[test]
fn varint_16383_is_two_bytes() {
    assert_eq!(read(&[0xff, 0x7f]), (Ok(16383), 2));
}

#[test]
fn varint_16384_is_three_bytes() {
    assert_eq!(read(&[0x80, 0x80, 0x01]), (Ok(16384), 3));
}

#[test]
fn varint_300() {
    assert_eq!(read(&[0xac, 0x02]), (Ok(300), 2));
}

#[test]
fn varint_largest_value() {
    let bytes: [u8; 10] = [0xff, 0xff, 0xff, 0xff, 0xff, 0xff, 0xff, 0xff, 0xff, 0x01];
    assert_eq!(read(&bytes), (Ok(u64::MAX), 10));
    assert_eq!(bytes.len(), MAX_VARINT_LEN);
}

#[test]
fn varint_two_to_the_63() {
    let bytes: [u8; 10] = [0x80, 0x80, 0x80, 0x80, 0x80, 0x80, 0x80, 0x80, 0x80, 0x01];
    assert_eq!(read(&bytes), (Ok(1u64 << 63), 10));
}

#[test]
fn varint_stops_at_the_first_byte_without_flag() {
    assert_eq!(read(&[0x05, 0xff, 0xff]), (Ok(5), 1));
}

#[test]
fn varint_accepts_padded_zero() {
    assert_eq!(read(&[0x80, 0x00]), (Ok(0), 2));
}

#[test]
fn varint_starts_at_the_given_position() {
    let bytes: [u8; 4] = [0xff, 0xac, 0x02, 0x09];
    let mut pos: usize = 1;
    assert_eq!(parse_var_int(&bytes, &mut pos), Ok(300));
    assert_eq!(pos, 3);
    assert_eq!(parse_var_int(&bytes, &mut pos), Ok(9));
    assert_eq!(pos, 4);
}

#[test]
fn varint_empty_is_truncated() {
    assert_eq!(read(&[]), (Err(FormatError::TruncatedVarint), 0));
}

#[test]
fn varint_truncated() {
    assert_eq!(read(&[0x80]), (Err(FormatError::TruncatedVarint), 0));
    assert_eq!(read(&[0xff, 0xff, 0xff]), (Err(FormatError::TruncatedVarint), 0));
}

#[test]
fn varint_at_the_end_is_truncated() {
    let bytes: [u8; 2] = [0x01, 0x02];
    let mut pos: usize = 2;
    assert_eq!(parse_var_int(&bytes, &mut pos), Err(FormatError::TruncatedVarint));
    assert_eq!(pos, 2);
}

#[test]
fn varint_behind_the_end_is_truncated() {
    let bytes: [u8; 2] = [0x01, 0x02];
    let mut pos: usize = 7;
    assert_eq!(parse_var_int(&bytes, &mut pos), Err(FormatError::TruncatedVarint));
    assert_eq!(pos, 7);
}

#[test]
fn varint_tenth_byte_too_large_is_oversized() {
    let bytes: [u8; 10] = [0xff, 0xff, 0xff, 0xff, 0xff, 0xff, 0xff, 0xff, 0xff, 0x02];
    assert_eq!(read(&bytes), (Err(FormatError::OversizedVarint), 0));
}

#[test]
fn varint_eleven_bytes_is_oversized() {
    let bytes: [u8; 11] = [0x80, 0x80, 0x80, 0x80, 0x80, 0x80, 0x80, 0x80, 0x80, 0x80, 0x00];
    assert_eq!(read(&bytes), (Err(FormatError::OversizedVarint), 0));
}

#[test]
fn varint_ten_flagged_bytes_is_oversized_not_truncated() {
    let bytes: [u8; 10] = [0x80, 0x80, 0x80, 0x80, 0x80, 0x80, 0x80, 0x80, 0x80, 0x80];
    assert_eq!(read(&bytes), (Err(FormatError::OversizedVarint), 0));
}

#[test]
fn varint_nine_flagged_bytes_is_truncated() {
    let bytes: [u8; 9] = [0x80, 0x80, 0x80, 0x80, 0x80, 0x80, 0x80, 0x80, 0x80];
    assert_eq!(read(&bytes), (Err(FormatError::TruncatedVarint), 0));
}

#[test]
fn varint_reads_back_the_standard_encoding() {
    let values: [u64; 12] = [
        0,
        1,
        127,
        128,
        255,
        16383,
        16384,
        2097151,
        2097152,
        u32::MAX as u64,
        (1u64 << 63) - 1,
        u64::MAX,
    ];
    for value in values {
        let mut bytes = encode(value);
        let len: usize = bytes.len();
        bytes.push(0xaa);
        assert_eq!(read(&bytes), (Ok(value), len));
    }
}
