use minebot::wire::{
    bytes_eq, copy_range, decode_length, extract_frame, frame_packet, read_blob, read_i16,
    read_i32, read_i64, read_string, read_u128, read_u16, read_u64, read_u8, read_varint_i32,
    try_decode_length, write_i16, write_i32, write_i64, write_string, write_u16, write_u64,
    write_varint_i32, DecodeError, VarNum,
};

fn encode_varint(v: i32) -> Vec<u8> {
    let mut out = Vec::new();
    write_varint_i32(&mut out, v);
    out
}

fn decode_varint(bytes: &Vec<u8>) -> Result<i32, DecodeError> {
    let mut pos = 0usize;
    read_varint_i32(bytes, &mut pos)
}

#[test]
fn varint_zero_is_one_zero_byte() {
    assert_eq!(encode_varint(0), vec![0x00]);
}

#[test]
fn varint_300_is_ac_02() {
    assert_eq!(encode_varint(300), vec![0xAC, 0x02]);
}

#[test]
fn varint_minus_one_is_five_bytes() {
    assert_eq!(encode_varint(-1), vec![0xFF, 0xFF, 0xFF, 0xFF, 0x0F]);
}

#[test]
fn varint_max_round_trips_in_five_bytes() {
    let e = encode_varint(2_147_483_647);
    assert_eq!(e.len(), 5);
    assert_eq!(decode_varint(&e).unwrap(), 2_147_483_647);
}

#[test]
fn varint_round_trips_assorted_values() {
    for v in [0, 1, 127, 128, 300, 16383, 16384, -1, -300, i32::MIN, i32::MAX] {
        let e = encode_varint(v);
        assert_eq!(decode_varint(&e).unwrap(), v, "value {v}");
        assert!(e.len() <= 5);
    }
}

#[test]
fn varint_sizes_match_encoding() {
    for v in [0, 127, 128, 16383, 16384, 2_097_151, 2_097_152, -5, i32::MAX] {
        assert_eq!(VarNum.encoded_size(v), encode_varint(v).len(), "value {v}");
    }
}

#[test]
fn varint_decode_rejects_overlong_input() {
    let bytes = vec![0xFFu8, 0xFF, 0xFF, 0xFF, 0xFF, 0x01];
    assert!(decode_varint(&bytes).is_err());
}

#[test]
fn varint_decode_rejects_empty_input() {
    assert!(decode_varint(&Vec::new()).is_err());
}

#[test]
fn fixed_width_round_trips() {
    let mut out = Vec::new();
    write_u16(&mut out, 0xBEEF);
    write_i16(&mut out, -2);
    write_i32(&mut out, -123456);
    write_i64(&mut out, -98765432101234);
    write_u64(&mut out, 0x0123_4567_89AB_CDEF);
    let mut pos = 0usize;
    assert_eq!(read_u16(&out, &mut pos).unwrap(), 0xBEEF);
    assert_eq!(read_i16(&out, &mut pos).unwrap(), -2);
    assert_eq!(read_i32(&out, &mut pos).unwrap(), -123456);
    assert_eq!(read_i64(&out, &mut pos).unwrap(), -98765432101234);
    assert_eq!(read_u64(&out, &mut pos).unwrap(), 0x0123_4567_89AB_CDEF);
    assert_eq!(pos, out.len());
}

#[test]
fn big_endian_byte_order_on_the_wire() {
    let mut out = Vec::new();
    write_u16(&mut out, 0x0102);
    assert_eq!(out, vec![0x01, 0x02]);
}

#[test]
fn u128_reads_sixteen_bytes() {
    let bytes: Vec<u8> = (1u8..=16).collect();
    let mut pos = 0usize;
    let v = read_u128(&bytes, &mut pos).unwrap();
    assert_eq!(v >> 120, 1);
    assert_eq!(v & 0xFF, 16);
    assert_eq!(pos, 16);
}

#[test]
fn string_round_trips() {
    let s = b"hello, wire".to_vec();
    let mut out = Vec::new();
    write_string(&mut out, &s);
    let mut pos = 0usize;
    let back = read_string(&out, &mut pos).unwrap();
    assert_eq!(back, s);
    assert_eq!(pos, out.len());
}

#[test]
fn string_rejects_bad_utf8() {
    let mut out = Vec::new();
    out.push(2); // length 2
    out.push(0xFF);
    out.push(0xFE);
    let mut pos = 0usize;
    assert_eq!(read_string(&out, &mut pos), Err(DecodeError::BadUtf8));
}

#[test]
fn string_rejects_short_input() {
    let mut out = Vec::new();
    out.push(5); // promises five bytes, none follow
    let mut pos = 0usize;
    assert!(read_string(&out, &mut pos).is_err());
}

#[test]
fn blob_keeps_raw_bytes() {
    let mut out = Vec::new();
    out.push(3);
    out.extend_from_slice(&[0xFF, 0x00, 0x80]);
    let mut pos = 0usize;
    assert_eq!(read_blob(&out, &mut pos).unwrap(), vec![0xFF, 0x00, 0x80]);
}

#[test]
fn read_u8_and_bounds() {
    let bytes = vec![7u8];
    let mut pos = 0usize;
    assert_eq!(read_u8(&bytes, &mut pos).unwrap(), 7);
    assert!(read_u8(&bytes, &mut pos).is_err());
}

#[test]
fn frame_prefixes_length() {
    let payload = vec![1u8, 2, 3];
    let framed = frame_packet(&payload);
    assert_eq!(framed, vec![3, 1, 2, 3]);
}

#[test]
fn decode_length_reads_prefix() {
    let bytes = vec![0xAC, 0x02, 9, 9];
    let mut pos = 0usize;
    assert_eq!(decode_length(&bytes, &mut pos).unwrap(), 300);
    assert_eq!(pos, 2);
}

#[test]
fn try_decode_length_reports_incomplete() {
    let (len, _) = try_decode_length(&vec![0x80u8]);
    assert_eq!(len, None);
    let (len, used) = try_decode_length(&vec![0x05u8, 1, 2]);
    assert_eq!(len, Some(5));
    assert_eq!(used, 1);
}

#[test]
fn extract_frame_splits_and_keeps_remainder() {
    let mut buf = vec![2u8, 10, 11, 3, 20, 21];
    let frame = extract_frame(&mut buf).unwrap().unwrap();
    assert_eq!(frame, vec![10, 11]);
    assert_eq!(buf, vec![3, 20, 21]);
}

#[test]
fn extract_frame_waits_for_missing_bytes() {
    let mut buf = vec![4u8, 1, 2];
    assert_eq!(extract_frame(&mut buf).unwrap(), None);
    assert_eq!(buf, vec![4, 1, 2]);
}

#[test]
fn extract_frame_rejects_malformed_prefix() {
    let mut buf = vec![0xFFu8, 0xFF, 0xFF, 0xFF, 0xFF, 0x01];
    assert!(extract_frame(&mut buf).is_err());
}

#[test]
fn bytes_eq_compares_contents() {
    assert!(bytes_eq(&vec![1, 2], &vec![1, 2]));
    assert!(!bytes_eq(&vec![1, 2], &vec![1, 3]));
    assert!(!bytes_eq(&vec![1], &vec![1, 2]));
}

#[test]
fn copy_range_copies_the_slice() {
    let src = vec![9u8, 8, 7, 6];
    assert_eq!(copy_range(&src, 1, 3), vec![8, 7]);
}
