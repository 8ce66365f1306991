use mmix::{GeneralRegisters, SpecialRegister, SpecialRegisters};

// ---- SpecialRegisters tests ----

#[test]
fn special_reg_new_all_zero() {
    let s = SpecialRegisters::new();
    for (reg, val) in s.iter() {
        assert_eq!(val, 0, "register {:?} should be zero", reg);
    }
}

#[test]
fn special_reg_set_get_roundtrip() {
    let mut s = SpecialRegisters::new();
    s.set(SpecialRegister::Ra, 0x1234_5678_9abc_def0);
    assert_eq!(s.get(SpecialRegister::Ra), 0x1234_5678_9abc_def0);
}

#[test]
fn special_reg_set_does_not_affect_others() {
    let mut s = SpecialRegisters::new();
    s.set(SpecialRegister::Rh, 42);
    assert_eq!(s.get(SpecialRegister::Ra), 0);
    assert_eq!(s.get(SpecialRegister::Rh), 42);
}

#[test]
fn special_reg_encoding_roundtrip() {
    for reg in SpecialRegister::ALL {
        let enc = reg.encoding();
        assert_eq!(SpecialRegister::from_encoding(enc), Some(reg));
    }
}

#[test]
fn special_reg_from_encoding_invalid() {
    assert_eq!(SpecialRegister::from_encoding(255), None);
}

#[test]
fn special_reg_name() {
    assert_eq!(SpecialRegister::Ra.name(), "ra");
    assert_eq!(SpecialRegister::Rzz.name(), "rzz");
}

#[test]
fn special_reg_count() {
    assert_eq!(SpecialRegister::COUNT, SpecialRegister::ALL.len());
    assert_eq!(SpecialRegister::COUNT, 32);
}

#[test]
fn special_reg_debug_format() {
    let s = SpecialRegisters::new();
    let dbg = format!("{:?}", s);
    assert!(dbg.contains("SpecialRegisters"));
    assert!(dbg.contains("ra"));
}

// ---- GeneralRegisters tests ----

#[test]
fn general_reg_new_all_zero() {
    let g = GeneralRegisters::new();
    for i in 0..=255u8 {
        assert_eq!(g.get(i), 0);
    }
}

#[test]
fn general_reg_set_get_roundtrip() {
    let mut g = GeneralRegisters::new();
    g.set(0, 100);
    g.set(255, u64::MAX);
    assert_eq!(g.get(0), 100);
    assert_eq!(g.get(255), u64::MAX);
}

#[test]
fn general_reg_set_does_not_affect_others() {
    let mut g = GeneralRegisters::new();
    g.set(42, 0xdead_beef);
    assert_eq!(g.get(41), 0);
    assert_eq!(g.get(43), 0);
    assert_eq!(g.get(42), 0xdead_beef);
}

#[test]
fn general_reg_iter() {
    let mut g = GeneralRegisters::new();
    g.set(10, 999);
    let found: Vec<_> = g.iter().into_iter().filter(|(_, v)| *v != 0).collect();
    assert_eq!(found, vec![(10u8, 999u64)]);
}
