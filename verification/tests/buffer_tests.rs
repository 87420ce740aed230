use spot_sbe::{ReadBuf, Reader, WriteBuf};

#[test]
fn put_then_get_u16_is_little_endian() {
    let mut data = [0u8; 4];
    let mut w = WriteBuf::new(&mut data);
    w.put_u16_at(1, 0x1234);
    assert_eq!(data, [0, 0x34, 0x12, 0]);
    let r = ReadBuf::new(&data);
    assert_eq!(r.get_u16_at(1), 0x1234);
}

#[test]
fn put_u32_writes_four_bytes_low_first() {
    let mut data = [0xaau8; 6];
    let mut w = WriteBuf::new(&mut data);
    w.put_u32_at(1, 0x0102_0304);
    assert_eq!(data, [0xaa, 0x04, 0x03, 0x02, 0x01, 0xaa]);
    assert_eq!(ReadBuf::new(&data).get_u32_at(1), 0x0102_0304);
}

#[test]
fn put_u64_writes_eight_bytes_low_first() {
    let mut data = [0u8; 10];
    let mut w = WriteBuf::new(&mut data);
    w.put_u64_at(2, 0x0102_0304_0506_0708);
    assert_eq!(data, [0, 0, 8, 7, 6, 5, 4, 3, 2, 1]);
    assert_eq!(ReadBuf::new(&data).get_u64_at(2), 0x0102_0304_0506_0708);
}

#[test]
fn unsigned_extremes_round_trip() {
    let mut data = [0u8; 16];
    let mut w = WriteBuf::new(&mut data);
    w.put_u8_at(0, u8::MAX);
    w.put_u16_at(1, u16::MAX);
    w.put_u32_at(3, u32::MAX);
    w.put_u64_at(7, u64::MAX);
    assert_eq!(&data[..15], &[0xff; 15]);
    let r = ReadBuf::new(&data);
    assert_eq!(r.get_u8_at(0), u8::MAX);
    assert_eq!(r.get_u16_at(1), u16::MAX);
    assert_eq!(r.get_u32_at(3), u32::MAX);
    assert_eq!(r.get_u64_at(7), u64::MAX);
    assert_eq!(r.get_u8_at(15), 0);
}

#[test]
fn signed_values_are_twos_complement() {
    let mut data = [0u8; 15];
    let mut w = WriteBuf::new(&mut data);
    w.put_i8_at(0, -1);
    w.put_i16_at(1, -2);
    w.put_i32_at(3, -3);
    w.put_i64_at(7, -4);
    assert_eq!(
        data,
        [0xff, 0xfe, 0xff, 0xfd, 0xff, 0xff, 0xff, 0xfc, 0xff, 0xff, 0xff, 0xff, 0xff, 0xff, 0xff]
    );
    let r = ReadBuf::new(&data);
    assert_eq!(r.get_i8_at(0), -1);
    assert_eq!(r.get_i16_at(1), -2);
    assert_eq!(r.get_i32_at(3), -3);
    assert_eq!(r.get_i64_at(7), -4);
}

#[test]
fn signed_extremes_round_trip() {
    for v in [i64::MIN, i64::MIN + 1, -1, 0, 1, i64::MAX] {
        let mut data = [0u8; 8];
        WriteBuf::new(&mut data).put_i64_at(0, v);
        assert_eq!(data, v.to_le_bytes());
        assert_eq!(ReadBuf::new(&data).get_i64_at(0), v);
    }
    for v in [i32::MIN, -1, 0, 1, i32::MAX] {
        let mut data = [0u8; 4];
        WriteBuf::new(&mut data).put_i32_at(0, v);
        assert_eq!(data, v.to_le_bytes());
        assert_eq!(ReadBuf::new(&data).get_i32_at(0), v);
    }
    for v in [i16::MIN, -1, 0, 1, i16::MAX] {
        let mut data = [0u8; 2];
        WriteBuf::new(&mut data).put_i16_at(0, v);
        assert_eq!(data, v.to_le_bytes());
        assert_eq!(ReadBuf::new(&data).get_i16_at(0), v);
    }
    for v in [i8::MIN, -1, 0, 1, i8::MAX] {
        let mut data = [0u8; 1];
        WriteBuf::new(&mut data).put_i8_at(0, v);
        assert_eq!(data, v.to_le_bytes());
        assert_eq!(ReadBuf::new(&data).get_i8_at(0), v);
    }
}

#[test]
fn every_u16_is_read_as_std_reads_it() {
    for v in 0..=u16::MAX {
        let bytes = v.to_le_bytes();
        assert_eq!(ReadBuf::new(&bytes).get_u16_at(0), v);
        assert_eq!(ReadBuf::new(&bytes).get_i16_at(0), i16::from_le_bytes(bytes));
    }
}

#[test]
fn get_reads_what_std_reads() {
    let bytes = [0x10u8, 0x32, 0x54, 0x76, 0x98, 0xba, 0xdc, 0xfe, 0x01];
    let r = ReadBuf::new(&bytes);
    assert_eq!(r.get_u32_at(0), u32::from_le_bytes([0x10, 0x32, 0x54, 0x76]));
    assert_eq!(r.get_i32_at(4), i32::from_le_bytes([0x98, 0xba, 0xdc, 0xfe]));
    assert_eq!(r.get_u64_at(0), 0xfedc_ba98_7654_3210);
    assert_eq!(r.get_i64_at(1), i64::from_le_bytes([0x32, 0x54, 0x76, 0x98, 0xba, 0xdc, 0xfe, 0x01]));
    assert_eq!(r.get_i8_at(7), -2);
    assert_eq!(r.len(), 9);
}

#[test]
fn put_leaves_other_bytes_alone() {
    let mut data = [7u8; 12];
    let mut w = WriteBuf::new(&mut data);
    w.put_i64_at(2, 0);
    assert_eq!(data, [7, 7, 0, 0, 0, 0, 0, 0, 0, 0, 7, 7]);
}

#[test]
fn put_bytes_at_copies_the_array_and_returns_its_length() {
    let mut data = [0u8; 6];
    let mut w = WriteBuf::new(&mut data);
    let n = w.put_bytes_at(2, [1u8, 2, 3]);
    assert_eq!(n, 3);
    assert_eq!(data, [0, 0, 1, 2, 3, 0]);
}

#[test]
fn put_slice_at_copies_the_slice_and_returns_its_length() {
    let mut data = [9u8; 6];
    let mut w = WriteBuf::new(&mut data);
    let n = w.put_slice_at(1, b"abcd");
    assert_eq!(n, 4);
    assert_eq!(&data, b"\x09abcd\x09");
    let mut w = WriteBuf::new(&mut data);
    assert_eq!(w.put_slice_at(6, b""), 0);
    assert_eq!(&data, b"\x09abcd\x09");
}

#[test]
fn get_slice_at_is_the_range() {
    let data = [1u8, 2, 3, 4, 5];
    let r = ReadBuf::new(&data);
    assert_eq!(r.get_slice_at(1, 3), &[2, 3, 4]);
    assert_eq!(r.get_slice_at(5, 0), &[] as &[u8]);
    assert_eq!(r.get_slice_at(0, 5), &data);
}

#[test]
fn default_buffers_are_empty() {
    assert_eq!(ReadBuf::default().len(), 0);
    assert_eq!(ReadBuf::default().get_slice_at(0, 0), &[] as &[u8]);
    let mut w = WriteBuf::default();
    assert_eq!(w.put_slice_at(0, &[]), 0);
}

#[test]
fn read_buf_is_its_own_reader() {
    let data = [5u8, 6];
    let r = ReadBuf::new(&data);
    assert_eq!(r.get_buf().get_u8_at(1), 6);
    let copy = r;
    assert_eq!(copy.get_u16_at(0), r.get_u16_at(0));
}
