use mmix::basic::{GeneralRegisters, Memory, SpecialRegister, SpecialRegisters};

#[test]
fn special_registers_roundtrip() {
    let mut s = SpecialRegisters::new();
    s.set(SpecialRegister::Ra, 0x1234);
    assert_eq!(s.get(SpecialRegister::Ra), 0x1234);
}

#[test]
fn special_register_encoding() {
    assert_eq!(SpecialRegister::Ra.encoding(), 0);
    assert_eq!(SpecialRegister::Rzz.encoding(), 31);
    assert_eq!(SpecialRegister::from_encoding(0), Some(SpecialRegister::Ra));
    assert_eq!(SpecialRegister::from_encoding(31), Some(SpecialRegister::Rzz));
    assert_eq!(SpecialRegister::from_encoding(255), None);
}

#[test]
fn general_registers_roundtrip() {
    let mut g = GeneralRegisters::new();
    g.set(42, 0xdead_beef);
    assert_eq!(g.get(42), 0xdead_beef);
}

#[test]
fn memory_roundtrip() {
    let mut m = Memory::new();
    m.write_u64_le(0, 0x0123_4567_89ab_cdef);
    assert_eq!(m.read_u64_le(0), 0x0123_4567_89ab_cdef);
    assert_eq!(m.read_byte(4), 0x67);
}
