use kafka_wire::types::{
    read_i16, read_i32, read_i8, read_u16, read_u64, write_i32, write_i8, write_u16, write_u64, Array, CompactArray, CompactNullableBytes,
    CompactString, NullableBytes, NullableString, TaggedFields, Uuid, VarInt,
};

#[test]
fn varint_empty_buf() {
    let buf: &[u8] = &[];
    assert_eq!(buf.len(), 0);
    assert_eq!(VarInt::deserialize(buf, 0), None);
}

#[test]
fn varint_1_byte() {
    let buf: &[u8] = &[0b01101000];
    assert_eq!(buf.len(), 1);
    let (r, _) = VarInt::deserialize(buf, 0).unwrap();
    assert_eq!(r, 104);

    let buf: &[u8] = &[0b01101000, 0b01101000];
    assert_eq!(buf.len(), 2);
    let (r, _) = VarInt::deserialize(buf, 0).unwrap();
    assert_eq!(r, 104);
}

#[test]
fn varint_2_bytes() {
    let buf: &[u8] = &[0b10010110, 0b00000001];
    assert_eq!(buf.len(), 2);
    let (r, _) = VarInt::deserialize(buf, 0).unwrap();
    assert_eq!(r, 150);
}

#[test]
fn varint_reports_next_position() {
    let buf: &[u8] = &[0x96, 0x01, 0x05];
    assert_eq!(VarInt::deserialize(buf, 0), Some((150, 2)));
    assert_eq!(VarInt::deserialize(buf, 2), Some((5, 3)));
}

#[test]
fn varint_write_then_read() {
    for n in [0u64, 1, 127, 128, 300, 16384, 1 << 40, (1u64 << 63) - 1] {
        let mut out = Vec::new();
        VarInt::serialize(&mut out, n);
        assert!(out.len() <= 10);
        assert_eq!(VarInt::deserialize(&out, 0), Some((n as i64, out.len())));
    }
}

#[test]
fn varint_exact_encoding() {
    let mut out = Vec::new();
    VarInt::serialize(&mut out, 300);
    assert_eq!(out, vec![0xac, 0x02]);
}

#[test]
fn varint_longer_than_ten_bytes_fails() {
    let mut buf = vec![0x80u8; 10];
    buf.push(0x01);
    assert_eq!(VarInt::deserialize(&buf, 0), None);
}

#[test]
fn varint_truncated_fails() {
    assert_eq!(VarInt::deserialize(&[0x80, 0x80], 0), None);
}

#[test]
fn varint_beyond_i64_fails() {
    let mut buf = vec![0xffu8; 9];
    buf.push(0x01);
    assert_eq!(VarInt::deserialize(&buf, 0), None);
}

#[test]
fn fixed_width_reads_are_big_endian() {
    let buf: &[u8] = &[0x01, 0x02, 0xff, 0xfe, 0, 0, 0, 0, 0, 0, 0, 1];
    assert_eq!(read_i16(buf, 0), Some((0x0102, 2)));
    assert_eq!(read_i16(buf, 2), Some((-2, 4)));
    assert_eq!(read_i32(buf, 0), Some((0x0102fffe, 4)));
    assert_eq!(read_u64(buf, 4), Some((1, 12)));
    assert_eq!(read_u64(buf, 5), None);
}

#[test]
fn write_i32_is_big_endian() {
    let mut out = Vec::new();
    write_i32(&mut out, -2);
    assert_eq!(out, vec![0xff, 0xff, 0xff, 0xfe]);
}

#[test]
fn compact_string_round_trip() {
    let mut out = Vec::new();
    CompactString::serialize(&mut out, "kafka-cli");
    assert_eq!(out[0], 10);
    assert_eq!(out.len(), 10);
    assert_eq!(CompactString::deserialize(&out, 0), Some(("kafka-cli".to_string(), 10)));
}

#[test]
fn compact_string_null_reads_empty() {
    assert_eq!(CompactString::deserialize(&[0x00], 0), Some((String::new(), 1)));
}

#[test]
fn compact_string_long_uses_full_varint() {
    let s = "x".repeat(300);
    let mut out = Vec::new();
    CompactString::serialize(&mut out, &s);
    assert_eq!(&out[..2], &[0xad, 0x02]);
    assert_eq!(CompactString::deserialize(&out, 0), Some((s, 302)));
}

#[test]
fn compact_string_truncated_fails() {
    assert_eq!(CompactString::deserialize(&[0x04, b'f', b'o'], 0), None);
}

#[test]
fn nullable_string_reads() {
    assert_eq!(NullableString::deserialize(&[0x00, 0x03, b'f', b'o', b'o'], 0), Some(("foo".to_string(), 5)));
    assert_eq!(NullableString::deserialize(&[0xff, 0xff], 0), Some((String::new(), 2)));
    assert_eq!(NullableString::deserialize(&[0xff, 0xfe], 0), None);
}

#[test]
fn compact_nullable_bytes_round_trip() {
    let mut out = Vec::new();
    CompactNullableBytes::serialize(&mut out, &[1, 2, 3]);
    assert_eq!(out, vec![4, 1, 2, 3]);
    assert_eq!(CompactNullableBytes::deserialize(&out, 0), Some((vec![1, 2, 3], 4)));
    assert_eq!(CompactNullableBytes::deserialize(&[0], 0), Some((vec![], 1)));
}

#[test]
fn nullable_bytes_writes_length_then_bytes() {
    let mut out = Vec::new();
    NullableBytes::serialize(&mut out, &[9, 8]);
    assert_eq!(out, vec![0, 0, 0, 2, 9, 8]);
}

#[test]
fn compact_array_empty_encodes_as_one() {
    let mut out = Vec::new();
    let items: Vec<u32> = Vec::new();
    CompactArray::serialize(&mut out, &items);
    assert_eq!(out, vec![0x01]);
}

#[test]
fn compact_array_null_decodes_empty() {
    let r = CompactArray::deserialize::<u32, u32>(&[0x00], 0);
    assert_eq!(r, Some((Vec::new(), 1)));
}

#[test]
fn compact_array_of_u32_round_trip() {
    let mut out = Vec::new();
    CompactArray::serialize(&mut out, &[1u32, 2, 0xdeadbeef]);
    assert_eq!(out.len(), 13);
    assert_eq!(CompactArray::deserialize::<u32, u32>(&out, 0), Some((vec![1, 2, 0xdeadbeef], 13)));
}

#[test]
fn array_reads_int32_count() {
    let buf: &[u8] = &[0, 0, 0, 1, 0, 0, 0, 7];
    assert_eq!(Array::deserialize::<u32, u32>(buf, 0), Some((vec![7], 8)));
    let null: &[u8] = &[0xff, 0xff, 0xff, 0xff];
    assert_eq!(Array::deserialize::<u32, u32>(null, 0), Some((vec![], 4)));
    let bad: &[u8] = &[0xff, 0xff, 0xff, 0xfe];
    assert_eq!(Array::deserialize::<u32, u32>(bad, 0), None);
}

#[test]
fn tag_buffer_zero_only() {
    let mut out = Vec::new();
    TaggedFields::serialize(&mut out);
    assert_eq!(out, vec![0]);
    assert_eq!(TaggedFields::deserialize(&[0], 0), Some(1));
    assert_eq!(TaggedFields::deserialize(&[1], 0), None);
}

#[test]
fn uuid_renders_canonical_lowercase_text() {
    let bytes: Vec<u8> = (0u8..16).map(|i| i * 17).collect();
    let (text, next) = Uuid::deserialize(&bytes, 0).unwrap();
    assert_eq!(text, "00112233-4455-6677-8899-aabbccddeeff");
    assert_eq!(next, 16);
}

#[test]
fn uuid_round_trip() {
    let text = "71a59a51-1be8-4a0d-8f3d-0b7e6a0f5c29";
    let mut out = Vec::new();
    Uuid::serialize(&mut out, text);
    assert_eq!(out.len(), 16);
    assert_eq!(out[0], 0x71);
    assert_eq!(out[15], 0x29);
    assert_eq!(Uuid::deserialize(&out, 0), Some((text.to_string(), 16)));
}

#[test]
fn uuid_upper_case_reads_back_lower_case() {
    let mut out = Vec::new();
    Uuid::serialize(&mut out, "ABCDEF01-2345-6789-ABCD-EF0123456789");
    assert_eq!(Uuid::deserialize(&out, 0), Some(("abcdef01-2345-6789-abcd-ef0123456789".to_string(), 16)));
}

#[test]
fn uuid_truncated_fails() {
    assert_eq!(Uuid::deserialize(&[0u8; 15], 0), None);
}

#[test]
fn writers_read_back() {
    let mut out = Vec::new();
    write_i8(&mut out, -3);
    write_u16(&mut out, 0xbeef);
    write_u64(&mut out, 0x0102030405060708);
    assert_eq!(out, vec![0xfd, 0xbe, 0xef, 1, 2, 3, 4, 5, 6, 7, 8]);
    assert_eq!(read_i8(&out, 0), Some((-3, 1)));
    assert_eq!(read_u16(&out, 1), Some((0xbeef, 3)));
    assert_eq!(read_u64(&out, 3), Some((0x0102030405060708, 11)));
}

#[test]
fn compact_string_length_counts_bytes() {
    let mut out = Vec::new();
    CompactString::serialize(&mut out, "né");
    assert_eq!(out, vec![4, b'n', 0xc3, 0xa9]);
    assert_eq!(CompactString::deserialize(&out, 0), Some(("né".to_string(), 4)));
}

#[test]
fn compact_string_invalid_utf8_is_replaced() {
    let buf: &[u8] = &[0x03, 0xff, b'a'];
    assert_eq!(CompactString::deserialize(buf, 0), Some(("\u{fffd}a".to_string(), 3)));
}
