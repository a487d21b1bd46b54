use chat_core::bytes::{push_be_u32, push_be_u64, read_be_u32, read_be_u64, u128_to_be_bytes};

#[test]
fn u32_is_written_most_significant_byte_first() {
    let mut buf = vec![0xaa];
    push_be_u32(&mut buf, 0x0102_0304);
    assert_eq!(buf, vec![0xaa, 1, 2, 3, 4]);
}

#[test]
fn u32_extremes() {
    let mut buf = Vec::new();
    push_be_u32(&mut buf, 0);
    push_be_u32(&mut buf, u32::MAX);
    assert_eq!(buf, vec![0, 0, 0, 0, 0xff, 0xff, 0xff, 0xff]);
    assert_eq!(read_be_u32(&buf, 0), 0);
    assert_eq!(read_be_u32(&buf, 4), u32::MAX);
}

#[test]
fn u64_is_written_most_significant_byte_first() {
    let mut buf = Vec::new();
    push_be_u64(&mut buf, 0x0102_0304_0506_0708);
    assert_eq!(buf, vec![1, 2, 3, 4, 5, 6, 7, 8]);
    assert_eq!(buf, 0x0102_0304_0506_0708u64.to_be_bytes().to_vec());
}

#[test]
fn u128_is_written_most_significant_byte_first() {
    let bytes = u128_to_be_bytes(0x0102_0304_0506_0708_090a_0b0c_0d0e_0f10);
    assert_eq!(bytes, (1..=16).collect::<Vec<u8>>());
}

#[test]
fn read_u32_at_an_offset() {
    let bytes = [9, 9, 0, 0, 1, 2, 9];
    assert_eq!(read_be_u32(&bytes, 2), 258);
}

#[test]
fn read_u64_at_an_offset() {
    let bytes = [7, 0, 0, 0, 0, 0, 0, 1, 0];
    assert_eq!(read_be_u64(&bytes, 1), 256);
}

#[test]
fn integers_survive_the_round_trip() {
    for x in [0u32, 1, 255, 256, 65_535, 65_536, 0x00ff_ffff, 0x0100_0000, 0xdead_beef, u32::MAX] {
        let mut buf = Vec::new();
        push_be_u32(&mut buf, x);
        assert_eq!(buf, x.to_be_bytes().to_vec());
        assert_eq!(read_be_u32(&buf, 0), x);
    }
    for x in [0u64, 1, 0xffff_ffff, 0x1_0000_0000, 0x0123_4567_89ab_cdef, u64::MAX] {
        let mut buf = Vec::new();
        push_be_u64(&mut buf, x);
        assert_eq!(buf, x.to_be_bytes().to_vec());
        assert_eq!(read_be_u64(&buf, 0), x);
    }
}
