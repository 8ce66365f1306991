use mmix::RawInst;

#[test]
fn instruction_decode_fields() {
    let inst = RawInst::decode(0xAB_CD_EF_01);
    assert_eq!(inst.op, 0xAB);
    assert_eq!(inst.x, 0xCD);
    assert_eq!(inst.y, 0xEF);
    assert_eq!(inst.z, 0x01);
}

#[test]
fn instruction_encode_roundtrip() {
    let word = 0x20_01_02_03u32;
    let inst = RawInst::decode(word);
    assert_eq!(inst.encode(), word);
}

#[test]
fn instruction_yz_value() {
    let inst = RawInst::decode(0x00_00_12_34);
    assert_eq!(inst.yz(), 0x1234);
}

#[test]
fn instruction_encode_all_ff() {
    let inst = RawInst::decode(0xFFFFFFFF);
    assert_eq!(inst.op, 0xFF);
    assert_eq!(inst.x, 0xFF);
    assert_eq!(inst.y, 0xFF);
    assert_eq!(inst.z, 0xFF);
    assert_eq!(inst.yz(), 0xFFFF);
    assert_eq!(inst.encode(), 0xFFFFFFFF);
}

#[test]
fn instruction_encode_zero() {
    let inst = RawInst::decode(0);
    assert_eq!(inst.op, 0);
    assert_eq!(inst.x, 0);
    assert_eq!(inst.y, 0);
    assert_eq!(inst.z, 0);
    assert_eq!(inst.encode(), 0);
}
