use liqi::blocks::{be_bytes, buf_to_method_data, split_blocks, Block, TAG_SPAN, TAG_VARINT};
use liqi::error::FormatError;

fn varint(mut value: u64) -> Vec<u8> {
    let mut out: Vec<u8> = Vec::new();
    while value >= 128 {
        out.push((value % 128) as u8 | 0x80);
        value /= 128;
    }
    out.push(value as u8);
    out
}

fn span_block(id: u8, data: &[u8]) -> Vec<u8> {
    let mut out: Vec<u8> = vec![(id << 3) | 2];
    out.extend(varint(data.len() as u64));
    out.extend_from_slice(data);
    out
}

fn varint_block(id: u8, value: u64) -> Vec<u8> {
    let mut out: Vec<u8> = vec![id << 3];
    out.extend(varint(value));
    out
}

fn parts(block: &Block) -> (u8, u8, Vec<u8>) {
    (block.id, block.tag, block.data.to_vec())
}

fn method_data(buf: &[u8]) -> Result<(Vec<u8>, Vec<u8>), FormatError> {
    buf_to_method_data(buf).map(|(name, payload)| (name.to_vec(), payload.to_vec()))
}

#[test]
fn be_bytes_of_300() {
    assert_eq!(be_bytes(300), vec![0, 0, 0, 0, 0, 0, 0x01, 0x2c]);
}

#[test]
fn be_bytes_of_zero_and_largest() {
    assert_eq!(be_bytes(0), vec![0u8; 8]);
    assert_eq!(be_bytes(u64::MAX), vec![0xffu8; 8]);
}

#[test]
fn be_bytes_puts_the_high_byte_first() {
    assert_eq!(
        be_bytes(0x0102_0304_0506_0708),
        vec![0x01, 0x02, 0x03, 0x04, 0x05, 0x06, 0x07, 0x08]
    );
    assert_eq!(be_bytes(0x0102_0304_0506_0708), 0x0102_0304_0506_0708u64.to_be_bytes().to_vec());
}

#[test]
fn split_empty_buffer_has_no_blocks() {
    assert_eq!(split_blocks(&[]).unwrap().len(), 0);
}

#[test]
fn split_span_block() {
    let blocks = split_blocks(&[0x0a, 0x03, b'a', b'b', b'c']).unwrap();
    assert_eq!(blocks.len(), 1);
    assert_eq!(parts(&blocks[0]), (1, TAG_SPAN, b"abc".to_vec()));
}

#[test]
fn split_varint_block_stores_big_endian_bytes() {
    let blocks = split_blocks(&[0x08, 0xac, 0x02]).unwrap();
    assert_eq!(blocks.len(), 1);
    assert_eq!(parts(&blocks[0]), (1, TAG_VARINT, vec![0, 0, 0, 0, 0, 0, 0x01, 0x2c]));
}

#[test]
fn split_reads_id_from_the_upper_five_bits() {
    let blocks = split_blocks(&[0xfa, 0x00, 0xf8, 0x01]).unwrap();
    assert_eq!(blocks.len(), 2);
    assert_eq!(parts(&blocks[0]), (31, TAG_SPAN, Vec::new()));
    assert_eq!(parts(&blocks[1]), (31, TAG_VARINT, vec![0, 0, 0, 0, 0, 0, 0, 1]));
}

#[test]
fn split_keeps_encounter_order() {
    let mut buf: Vec<u8> = Vec::new();
    buf.extend(span_block(1, b"first"));
    buf.extend(varint_block(2, 7));
    buf.extend(span_block(3, b"third"));
    let blocks = split_blocks(&buf).unwrap();
    assert_eq!(blocks.len(), 3);
    assert_eq!(parts(&blocks[0]), (1, TAG_SPAN, b"first".to_vec()));
    assert_eq!(parts(&blocks[1]), (2, TAG_VARINT, vec![0, 0, 0, 0, 0, 0, 0, 7]));
    assert_eq!(parts(&blocks[2]), (3, TAG_SPAN, b"third".to_vec()));
}

#[test]
fn split_rejects_other_block_types() {
    for tag in [1u8, 3, 4, 5, 6, 7] {
        let buf: [u8; 2] = [0x08 | tag, 0x00];
        assert_eq!(split_blocks(&buf).unwrap_err(), FormatError::InvalidBlockType(tag));
    }
}

#[test]
fn split_reports_the_first_malformed_block() {
    let mut buf: Vec<u8> = span_block(1, b"ok");
    buf.push(0x0d);
    buf.extend(span_block(2, b"never read"));
    assert_eq!(split_blocks(&buf).unwrap_err(), FormatError::InvalidBlockType(5));
}

#[test]
fn split_rejects_span_longer_than_the_buffer() {
    assert_eq!(
        split_blocks(&[0x0a, 0x05, b'a']).unwrap_err(),
        FormatError::TruncatedBlock
    );
}

#[test]
fn split_rejects_span_with_huge_length() {
    let buf: [u8; 11] = [0x0a, 0xff, 0xff, 0xff, 0xff, 0xff, 0xff, 0xff, 0xff, 0xff, 0x01];
    assert_eq!(split_blocks(&buf).unwrap_err(), FormatError::TruncatedBlock);
}

#[test]
fn split_rejects_tag_byte_without_integer() {
    assert_eq!(split_blocks(&[0x0a]).unwrap_err(), FormatError::TruncatedVarint);
    assert_eq!(split_blocks(&[0x08, 0x80]).unwrap_err(), FormatError::TruncatedVarint);
}

#[test]
fn split_rejects_oversized_integer() {
    let buf: [u8; 11] = [0x08, 0xff, 0xff, 0xff, 0xff, 0xff, 0xff, 0xff, 0xff, 0xff, 0x02];
    assert_eq!(split_blocks(&buf).unwrap_err(), FormatError::OversizedVarint);
}

#[test]
fn method_data_round_trip() {
    let name: &[u8] = b".lq.Lobby.login";
    let payload: Vec<u8> = vec![0x0a, 0x03, b'n', b'e', b'o', 0x10, 0x07];
    let mut buf: Vec<u8> = span_block(1, name);
    buf.extend(span_block(2, &payload));
    assert_eq!(method_data(&buf), Ok((name.to_vec(), payload)));
}

#[test]
fn method_data_round_trip_of_many_shapes() {
    let spans: [Vec<u8>; 5] = [
        Vec::new(),
        vec![0x00],
        vec![0xff; 127],
        vec![0x5a; 128],
        (0..=255u8).cycle().take(20000).collect(),
    ];
    for name in &spans {
        for payload in &spans {
            for (name_id, payload_id) in [(0u8, 0u8), (1, 2), (31, 17)] {
                let mut buf: Vec<u8> = span_block(name_id, name);
                buf.extend(span_block(payload_id, payload));
                assert_eq!(method_data(&buf), Ok((name.clone(), payload.clone())));
            }
        }
    }
}

#[test]
fn method_data_with_empty_name() {
    let mut buf: Vec<u8> = span_block(1, b"");
    buf.extend(span_block(2, b"\x08\x01"));
    assert_eq!(method_data(&buf), Ok((Vec::new(), vec![0x08, 0x01])));
}

#[test]
fn method_data_takes_integer_blocks_too() {
    let mut buf: Vec<u8> = varint_block(1, 1);
    buf.extend(varint_block(2, 256));
    assert_eq!(
        method_data(&buf),
        Ok((vec![0, 0, 0, 0, 0, 0, 0, 1], vec![0, 0, 0, 0, 0, 0, 1, 0]))
    );
}

#[test]
fn method_data_rejects_no_block() {
    assert_eq!(method_data(&[]), Err(FormatError::InvalidBlockCount(0)));
}

#[test]
fn method_data_rejects_one_block() {
    assert_eq!(method_data(&span_block(1, b"name")), Err(FormatError::InvalidBlockCount(1)));
}

#[test]
fn method_data_rejects_three_blocks() {
    let mut buf: Vec<u8> = span_block(1, b"a");
    buf.extend(span_block(2, b"b"));
    buf.extend(span_block(3, b"c"));
    assert_eq!(method_data(&buf), Err(FormatError::InvalidBlockCount(3)));
}

#[test]
fn method_data_rejects_trailing_garbage() {
    let mut buf: Vec<u8> = span_block(1, b"a");
    buf.extend(span_block(2, b"b"));
    buf.push(0x0a);
    assert_eq!(method_data(&buf), Err(FormatError::TruncatedVarint));
}

#[test]
fn method_data_passes_split_errors_on() {
    assert_eq!(method_data(&[0x0b, 0x00]), Err(FormatError::InvalidBlockType(3)));
    assert_eq!(method_data(&[0x0a, 0x02, 0x00]), Err(FormatError::TruncatedBlock));
}
