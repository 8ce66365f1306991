use mmix::Memory;

#[test]
fn read_uninitialized_returns_zero() {
    let m = Memory::new();
    assert_eq!(m.read_u8(0), 0);
    assert_eq!(m.read_u8(u64::MAX), 0);
    assert_eq!(m.read_u64(0x1000), 0);
}

#[test]
fn byte_roundtrip() {
    let mut m = Memory::new();
    m.write_u8(100, 0xAB);
    assert_eq!(m.read_u8(100), 0xAB);
    assert_eq!(m.read_u8(101), 0);
}

#[test]
fn u16_big_endian() {
    let mut m = Memory::new();
    m.write_u16(0, 0x1234);
    assert_eq!(m.read_u8(0), 0x12);
    assert_eq!(m.read_u8(1), 0x34);
    assert_eq!(m.read_u16(0), 0x1234);
}

#[test]
fn u32_big_endian() {
    let mut m = Memory::new();
    m.write_u32(0, 0x12345678);
    assert_eq!(m.read_u8(0), 0x12);
    assert_eq!(m.read_u8(1), 0x34);
    assert_eq!(m.read_u8(2), 0x56);
    assert_eq!(m.read_u8(3), 0x78);
    assert_eq!(m.read_u32(0), 0x12345678);
}

#[test]
fn u64_big_endian() {
    let mut m = Memory::new();
    m.write_u64(0, 0x0123_4567_89AB_CDEF);
    assert_eq!(m.read_u8(0), 0x01);
    assert_eq!(m.read_u8(7), 0xEF);
    assert_eq!(m.read_u64(0), 0x0123_4567_89AB_CDEF);
}

#[test]
fn u64_le_roundtrip() {
    let mut m = Memory::new();
    m.write_u64_le(0x100, 0x0123_4567_89AB_CDEF);
    assert_eq!(m.read_u64_le(0x100), 0x0123_4567_89AB_CDEF);
    // LE: least significant byte at lowest address
    assert_eq!(m.read_u8(0x100), 0xEF);
    assert_eq!(m.read_u8(0x107), 0x01);
}

#[test]
fn write_overwrite() {
    let mut m = Memory::new();
    m.write_u8(0, 0x11);
    m.write_u8(0, 0x22);
    assert_eq!(m.read_u8(0), 0x22);
}

#[test]
fn u32_sub_read_from_u64() {
    let mut m = Memory::new();
    m.write_u64(0, 0x0102_0304_0506_0708);
    assert_eq!(m.read_u32(0), 0x0102_0304);
    assert_eq!(m.read_u32(4), 0x0506_0708);
    assert_eq!(m.read_u16(2), 0x0304);
}
