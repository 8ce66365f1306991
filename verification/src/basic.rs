//! A plain register-and-memory machine whose special registers are numbered
//! 0 ..= 31 in alphabetical order, with no instruction execution.

pub use crate::memory::Memory;
pub use crate::register::GeneralRegisters;
use vstd::prelude::*;

verus! {

/// A special register of the machine.
#[derive(Debug, Clone, Copy, PartialEq, Eq, Hash, Structural)]
pub enum SpecialRegister {
    /// Arithmetic status register.
    Ra,
    /// Bootstrap register (trap).
    Rb,
    /// Continuation register.
    Rc,
    /// Dividend register.
    Rd,
    /// Epsilon register.
    Re,
    /// Failure location register.
    Rf,
    /// Global threshold register.
    Rg,
    /// Himult register.
    Rh,
    /// Interval counter.
    Ri,
    /// Return-jump register.
    Rj,
    /// Interrupt mask register.
    Rk,
    /// Local threshold register.
    Rl,
    /// Multiplex mask register.
    Rm,
    /// Serial number.
    Rn,
    /// Register stack offset.
    Ro,
    /// Prediction register.
    Rp,
    /// Interrupt request register.
    Rq,
    /// Remainder register.
    Rr,
    /// Register stack pointer.
    Rs,
    /// Trap address register.
    Rt,
    /// Usage counter.
    Ru,
    /// Virtual translation register.
    Rv,
    /// Where-interrupted register (trip).
    Rw,
    /// Execution register (trip).
    Rx,
    /// Y operand (trip).
    Ry,
    /// Z operand (trip).
    Rz,
    /// Bootstrap register (trap).
    Rbb,
    /// Dynamic trap address register.
    Rtt,
    /// Where-interrupted register (dynamic trap).
    Rww,
    /// Execution register (dynamic trap).
    Rxx,
    /// Y operand (dynamic trap).
    Ryy,
    /// Z operand (dynamic trap).
    Rzz,
}

/// The encoding of each special register, as GET and PUT name it.
pub open spec fn spec_encoding(reg: SpecialRegister) -> u8 {
    match reg {
        SpecialRegister::Ra => 0,
        SpecialRegister::Rb => 1,
        SpecialRegister::Rc => 2,
        SpecialRegister::Rd => 3,
        SpecialRegister::Re => 4,
        SpecialRegister::Rf => 5,
        SpecialRegister::Rg => 6,
        SpecialRegister::Rh => 7,
        SpecialRegister::Ri => 8,
        SpecialRegister::Rj => 9,
        SpecialRegister::Rk => 10,
        SpecialRegister::Rl => 11,
        SpecialRegister::Rm => 12,
        SpecialRegister::Rn => 13,
        SpecialRegister::Ro => 14,
        SpecialRegister::Rp => 15,
        SpecialRegister::Rq => 16,
        SpecialRegister::Rr => 17,
        SpecialRegister::Rs => 18,
        SpecialRegister::Rt => 19,
        SpecialRegister::Ru => 20,
        SpecialRegister::Rv => 21,
        SpecialRegister::Rw => 22,
        SpecialRegister::Rx => 23,
        SpecialRegister::Ry => 24,
        SpecialRegister::Rz => 25,
        SpecialRegister::Rbb => 26,
        SpecialRegister::Rtt => 27,
        SpecialRegister::Rww => 28,
        SpecialRegister::Rxx => 29,
        SpecialRegister::Ryy => 30,
        SpecialRegister::Rzz => 31,
    }
}

/// The special register that an encoding names, if any.
pub open spec fn spec_from_encoding(enc: u8) -> Option<SpecialRegister> {
    match enc {
        0 => Some(SpecialRegister::Ra),
        1 => Some(SpecialRegister::Rb),
        2 => Some(SpecialRegister::Rc),
        3 => Some(SpecialRegister::Rd),
        4 => Some(SpecialRegister::Re),
        5 => Some(SpecialRegister::Rf),
        6 => Some(SpecialRegister::Rg),
        7 => Some(SpecialRegister::Rh),
        8 => Some(SpecialRegister::Ri),
        9 => Some(SpecialRegister::Rj),
        10 => Some(SpecialRegister::Rk),
        11 => Some(SpecialRegister::Rl),
        12 => Some(SpecialRegister::Rm),
        13 => Some(SpecialRegister::Rn),
        14 => Some(SpecialRegister::Ro),
        15 => Some(SpecialRegister::Rp),
        16 => Some(SpecialRegister::Rq),
        17 => Some(SpecialRegister::Rr),
        18 => Some(SpecialRegister::Rs),
        19 => Some(SpecialRegister::Rt),
        20 => Some(SpecialRegister::Ru),
        21 => Some(SpecialRegister::Rv),
        22 => Some(SpecialRegister::Rw),
        23 => Some(SpecialRegister::Rx),
        24 => Some(SpecialRegister::Ry),
        25 => Some(SpecialRegister::Rz),
        26 => Some(SpecialRegister::Rbb),
        27 => Some(SpecialRegister::Rtt),
        28 => Some(SpecialRegister::Rww),
        29 => Some(SpecialRegister::Rxx),
        30 => Some(SpecialRegister::Ryy),
        31 => Some(SpecialRegister::Rzz),
        _ => None,
    }
}

/// The lower-case name of each special register.
pub open spec fn spec_reg_name(reg: SpecialRegister) -> &'static str {
    match reg {
        SpecialRegister::Ra => "ra",
        SpecialRegister::Rb => "rb",
        SpecialRegister::Rc => "rc",
        SpecialRegister::Rd => "rd",
        SpecialRegister::Re => "re",
        SpecialRegister::Rf => "rf",
        SpecialRegister::Rg => "rg",
        SpecialRegister::Rh => "rh",
        SpecialRegister::Ri => "ri",
        SpecialRegister::Rj => "rj",
        SpecialRegister::Rk => "rk",
        SpecialRegister::Rl => "rl",
        SpecialRegister::Rm => "rm",
        SpecialRegister::Rn => "rn",
        SpecialRegister::Ro => "ro",
        SpecialRegister::Rp => "rp",
        SpecialRegister::Rq => "rq",
        SpecialRegister::Rr => "rr",
        SpecialRegister::Rs => "rs",
        SpecialRegister::Rt => "rt",
        SpecialRegister::Ru => "ru",
        SpecialRegister::Rv => "rv",
        SpecialRegister::Rw => "rw",
        SpecialRegister::Rx => "rx",
        SpecialRegister::Ry => "ry",
        SpecialRegister::Rz => "rz",
        SpecialRegister::Rbb => "rbb",
        SpecialRegister::Rtt => "rtt",
        SpecialRegister::Rww => "rww",
        SpecialRegister::Rxx => "rxx",
        SpecialRegister::Ryy => "ryy",
        SpecialRegister::Rzz => "rzz",
    }
}

/// The position of each special register in [`SpecialRegister::ALL`].
pub open spec fn spec_index(reg: SpecialRegister) -> int {
    match reg {
        SpecialRegister::Ra => 0,
        SpecialRegister::Rb => 1,
        SpecialRegister::Rc => 2,
        SpecialRegister::Rd => 3,
        SpecialRegister::Re => 4,
        SpecialRegister::Rf => 5,
        SpecialRegister::Rg => 6,
        SpecialRegister::Rh => 7,
        SpecialRegister::Ri => 8,
        SpecialRegister::Rj => 9,
        SpecialRegister::Rk => 10,
        SpecialRegister::Rl => 11,
        SpecialRegister::Rm => 12,
        SpecialRegister::Rn => 13,
        SpecialRegister::Ro => 14,
        SpecialRegister::Rp => 15,
        SpecialRegister::Rq => 16,
        SpecialRegister::Rr => 17,
        SpecialRegister::Rs => 18,
        SpecialRegister::Rt => 19,
        SpecialRegister::Ru => 20,
        SpecialRegister::Rv => 21,
        SpecialRegister::Rw => 22,
        SpecialRegister::Rx => 23,
        SpecialRegister::Ry => 24,
        SpecialRegister::Rz => 25,
        SpecialRegister::Rbb => 26,
        SpecialRegister::Rtt => 27,
        SpecialRegister::Rww => 28,
        SpecialRegister::Rxx => 29,
        SpecialRegister::Ryy => 30,
        SpecialRegister::Rzz => 31,
    }
}

impl SpecialRegister {
    /// Every special register, in declaration order.
    pub const ALL: [SpecialRegister; 32] = [
        SpecialRegister::Ra,
        SpecialRegister::Rb,
        SpecialRegister::Rc,
        SpecialRegister::Rd,
        SpecialRegister::Re,
        SpecialRegister::Rf,
        SpecialRegister::Rg,
        SpecialRegister::Rh,
        SpecialRegister::Ri,
        SpecialRegister::Rj,
        SpecialRegister::Rk,
        SpecialRegister::Rl,
        SpecialRegister::Rm,
        SpecialRegister::Rn,
        SpecialRegister::Ro,
        SpecialRegister::Rp,
        SpecialRegister::Rq,
        SpecialRegister::Rr,
        SpecialRegister::Rs,
        SpecialRegister::Rt,
        SpecialRegister::Ru,
        SpecialRegister::Rv,
        SpecialRegister::Rw,
        SpecialRegister::Rx,
        SpecialRegister::Ry,
        SpecialRegister::Rz,
        SpecialRegister::Rbb,
        SpecialRegister::Rtt,
        SpecialRegister::Rww,
        SpecialRegister::Rxx,
        SpecialRegister::Ryy,
        SpecialRegister::Rzz,
    ];

    /// The number of special registers.
    pub const COUNT: usize = 32;

    pub fn name(self) -> (n: &'static str)
        ensures
            n == spec_reg_name(self),
    {
        match self {
            SpecialRegister::Ra => "ra",
            SpecialRegister::Rb => "rb",
            SpecialRegister::Rc => "rc",
            SpecialRegister::Rd => "rd",
            SpecialRegister::Re => "re",
            SpecialRegister::Rf => "rf",
            SpecialRegister::Rg => "rg",
            SpecialRegister::Rh => "rh",
            SpecialRegister::Ri => "ri",
            SpecialRegister::Rj => "rj",
            SpecialRegister::Rk => "rk",
            SpecialRegister::Rl => "rl",
            SpecialRegister::Rm => "rm",
            SpecialRegister::Rn => "rn",
            SpecialRegister::Ro => "ro",
            SpecialRegister::Rp => "rp",
            SpecialRegister::Rq => "rq",
            SpecialRegister::Rr => "rr",
            SpecialRegister::Rs => "rs",
            SpecialRegister::Rt => "rt",
            SpecialRegister::Ru => "ru",
            SpecialRegister::Rv => "rv",
            SpecialRegister::Rw => "rw",
            SpecialRegister::Rx => "rx",
            SpecialRegister::Ry => "ry",
            SpecialRegister::Rz => "rz",
            SpecialRegister::Rbb => "rbb",
            SpecialRegister::Rtt => "rtt",
            SpecialRegister::Rww => "rww",
            SpecialRegister::Rxx => "rxx",
            SpecialRegister::Ryy => "ryy",
            SpecialRegister::Rzz => "rzz",
        }
    }

    pub fn encoding(self) -> (e: u8)
        ensures
            e == spec_encoding(self),
    {
        match self {
            SpecialRegister::Ra => 0,
            SpecialRegister::Rb => 1,
            SpecialRegister::Rc => 2,
            SpecialRegister::Rd => 3,
            SpecialRegister::Re => 4,
            SpecialRegister::Rf => 5,
            SpecialRegister::Rg => 6,
            SpecialRegister::Rh => 7,
            SpecialRegister::Ri => 8,
            SpecialRegister::Rj => 9,
            SpecialRegister::Rk => 10,
            SpecialRegister::Rl => 11,
            SpecialRegister::Rm => 12,
            SpecialRegister::Rn => 13,
            SpecialRegister::Ro => 14,
            SpecialRegister::Rp => 15,
            SpecialRegister::Rq => 16,
            SpecialRegister::Rr => 17,
            SpecialRegister::Rs => 18,
            SpecialRegister::Rt => 19,
            SpecialRegister::Ru => 20,
            SpecialRegister::Rv => 21,
            SpecialRegister::Rw => 22,
            SpecialRegister::Rx => 23,
            SpecialRegister::Ry => 24,
            SpecialRegister::Rz => 25,
            SpecialRegister::Rbb => 26,
            SpecialRegister::Rtt => 27,
            SpecialRegister::Rww => 28,
            SpecialRegister::Rxx => 29,
            SpecialRegister::Ryy => 30,
            SpecialRegister::Rzz => 31,
        }
    }

    pub fn from_encoding(enc: u8) -> (r: Option<Self>)
        ensures
            r == spec_from_encoding(enc),
            r matches Some(reg) ==> spec_encoding(reg) == enc,
            r is None ==> forall|reg: SpecialRegister| spec_encoding(reg) != enc,
    {
        proof {
            lemma_encoding_bijective();
        }
        match enc {
            0 => Some(SpecialRegister::Ra),
            1 => Some(SpecialRegister::Rb),
            2 => Some(SpecialRegister::Rc),
            3 => Some(SpecialRegister::Rd),
            4 => Some(SpecialRegister::Re),
            5 => Some(SpecialRegister::Rf),
            6 => Some(SpecialRegister::Rg),
            7 => Some(SpecialRegister::Rh),
            8 => Some(SpecialRegister::Ri),
            9 => Some(SpecialRegister::Rj),
            10 => Some(SpecialRegister::Rk),
            11 => Some(SpecialRegister::Rl),
            12 => Some(SpecialRegister::Rm),
            13 => Some(SpecialRegister::Rn),
            14 => Some(SpecialRegister::Ro),
            15 => Some(SpecialRegister::Rp),
            16 => Some(SpecialRegister::Rq),
            17 => Some(SpecialRegister::Rr),
            18 => Some(SpecialRegister::Rs),
            19 => Some(SpecialRegister::Rt),
            20 => Some(SpecialRegister::Ru),
            21 => Some(SpecialRegister::Rv),
            22 => Some(SpecialRegister::Rw),
            23 => Some(SpecialRegister::Rx),
            24 => Some(SpecialRegister::Ry),
            25 => Some(SpecialRegister::Rz),
            26 => Some(SpecialRegister::Rbb),
            27 => Some(SpecialRegister::Rtt),
            28 => Some(SpecialRegister::Rww),
            29 => Some(SpecialRegister::Rxx),
            30 => Some(SpecialRegister::Ryy),
            31 => Some(SpecialRegister::Rzz),
            _ => None,
        }
    }
}

/// Encoding and decoding special registers are inverse to each other.
pub proof fn lemma_encoding_bijective()
    ensures
        forall|reg: SpecialRegister| #[trigger] spec_from_encoding(spec_encoding(reg)) == Some(reg),
        forall|enc: u8| #[trigger] spec_from_encoding(enc) matches Some(reg) ==> spec_encoding(reg) == enc,
        forall|enc: u8| #[trigger] spec_from_encoding(enc) is None ==> forall|reg: SpecialRegister| spec_encoding(reg) != enc,
{
    assert forall|reg: SpecialRegister| #[trigger] spec_from_encoding(spec_encoding(reg)) == Some(reg) by {
        match reg {
            SpecialRegister::Ra => {},
            SpecialRegister::Rb => {},
            SpecialRegister::Rc => {},
            SpecialRegister::Rd => {},
            SpecialRegister::Re => {},
            SpecialRegister::Rf => {},
            SpecialRegister::Rg => {},
            SpecialRegister::Rh => {},
            SpecialRegister::Ri => {},
            SpecialRegister::Rj => {},
            SpecialRegister::Rk => {},
            SpecialRegister::Rl => {},
            SpecialRegister::Rm => {},
            SpecialRegister::Rn => {},
            SpecialRegister::Ro => {},
            SpecialRegister::Rp => {},
            SpecialRegister::Rq => {},
            SpecialRegister::Rr => {},
            SpecialRegister::Rs => {},
            SpecialRegister::Rt => {},
            SpecialRegister::Ru => {},
            SpecialRegister::Rv => {},
            SpecialRegister::Rw => {},
            SpecialRegister::Rx => {},
            SpecialRegister::Ry => {},
            SpecialRegister::Rz => {},
            SpecialRegister::Rbb => {},
            SpecialRegister::Rtt => {},
            SpecialRegister::Rww => {},
            SpecialRegister::Rxx => {},
            SpecialRegister::Ryy => {},
            SpecialRegister::Rzz => {},
        }
    }
    assert forall|enc: u8| #[trigger] spec_from_encoding(enc) is None implies forall|reg: SpecialRegister| spec_encoding(reg) != enc by {
        assert forall|reg: SpecialRegister| spec_encoding(reg) != enc by {
            match reg {
                SpecialRegister::Ra => {},
                SpecialRegister::Rb => {},
                SpecialRegister::Rc => {},
                SpecialRegister::Rd => {},
                SpecialRegister::Re => {},
                SpecialRegister::Rf => {},
                SpecialRegister::Rg => {},
                SpecialRegister::Rh => {},
                SpecialRegister::Ri => {},
                SpecialRegister::Rj => {},
                SpecialRegister::Rk => {},
                SpecialRegister::Rl => {},
                SpecialRegister::Rm => {},
                SpecialRegister::Rn => {},
                SpecialRegister::Ro => {},
                SpecialRegister::Rp => {},
                SpecialRegister::Rq => {},
                SpecialRegister::Rr => {},
                SpecialRegister::Rs => {},
                SpecialRegister::Rt => {},
                SpecialRegister::Ru => {},
                SpecialRegister::Rv => {},
                SpecialRegister::Rw => {},
                SpecialRegister::Rx => {},
                SpecialRegister::Ry => {},
                SpecialRegister::Rz => {},
                SpecialRegister::Rbb => {},
                SpecialRegister::Rtt => {},
                SpecialRegister::Rww => {},
                SpecialRegister::Rxx => {},
                SpecialRegister::Ryy => {},
                SpecialRegister::Rzz => {},
            }
        }
    }
}

/// The values of all special registers.
#[derive(Debug, Clone, Copy)]
pub struct SpecialRegisters {
    ra: u64,
    rb: u64,
    rc: u64,
    rd: u64,
    re: u64,
    rf: u64,
    rg: u64,
    rh: u64,
    ri: u64,
    rj: u64,
    rk: u64,
    rl: u64,
    rm: u64,
    rn: u64,
    ro: u64,
    rp: u64,
    rq: u64,
    rr: u64,
    rs: u64,
    rt: u64,
    ru: u64,
    rv: u64,
    rw: u64,
    rx: u64,
    ry: u64,
    rz: u64,
    rbb: u64,
    rtt: u64,
    rww: u64,
    rxx: u64,
    ryy: u64,
    rzz: u64,
}

impl SpecialRegisters {
    /// The value held in one special register.
    pub closed spec fn value(self, reg: SpecialRegister) -> u64 {
        match reg {
            SpecialRegister::Ra => self.ra,
            SpecialRegister::Rb => self.rb,
            SpecialRegister::Rc => self.rc,
            SpecialRegister::Rd => self.rd,
            SpecialRegister::Re => self.re,
            SpecialRegister::Rf => self.rf,
            SpecialRegister::Rg => self.rg,
            SpecialRegister::Rh => self.rh,
            SpecialRegister::Ri => self.ri,
            SpecialRegister::Rj => self.rj,
            SpecialRegister::Rk => self.rk,
            SpecialRegister::Rl => self.rl,
            SpecialRegister::Rm => self.rm,
            SpecialRegister::Rn => self.rn,
            SpecialRegister::Ro => self.ro,
            SpecialRegister::Rp => self.rp,
            SpecialRegister::Rq => self.rq,
            SpecialRegister::Rr => self.rr,
            SpecialRegister::Rs => self.rs,
            SpecialRegister::Rt => self.rt,
            SpecialRegister::Ru => self.ru,
            SpecialRegister::Rv => self.rv,
            SpecialRegister::Rw => self.rw,
            SpecialRegister::Rx => self.rx,
            SpecialRegister::Ry => self.ry,
            SpecialRegister::Rz => self.rz,
            SpecialRegister::Rbb => self.rbb,
            SpecialRegister::Rtt => self.rtt,
            SpecialRegister::Rww => self.rww,
            SpecialRegister::Rxx => self.rxx,
            SpecialRegister::Ryy => self.ryy,
            SpecialRegister::Rzz => self.rzz,
        }
    }

    /// The registers with one register replaced.
    pub closed spec fn with(self, reg: SpecialRegister, v: u64) -> Self {
        match reg {
            SpecialRegister::Ra => SpecialRegisters { ra: v, ..self },
            SpecialRegister::Rb => SpecialRegisters { rb: v, ..self },
            SpecialRegister::Rc => SpecialRegisters { rc: v, ..self },
            SpecialRegister::Rd => SpecialRegisters { rd: v, ..self },
            SpecialRegister::Re => SpecialRegisters { re: v, ..self },
            SpecialRegister::Rf => SpecialRegisters { rf: v, ..self },
            SpecialRegister::Rg => SpecialRegisters { rg: v, ..self },
            SpecialRegister::Rh => SpecialRegisters { rh: v, ..self },
            SpecialRegister::Ri => SpecialRegisters { ri: v, ..self },
            SpecialRegister::Rj => SpecialRegisters { rj: v, ..self },
            SpecialRegister::Rk => SpecialRegisters { rk: v, ..self },
            SpecialRegister::Rl => SpecialRegisters { rl: v, ..self },
            SpecialRegister::Rm => SpecialRegisters { rm: v, ..self },
            SpecialRegister::Rn => SpecialRegisters { rn: v, ..self },
            SpecialRegister::Ro => SpecialRegisters { ro: v, ..self },
            SpecialRegister::Rp => SpecialRegisters { rp: v, ..self },
            SpecialRegister::Rq => SpecialRegisters { rq: v, ..self },
            SpecialRegister::Rr => SpecialRegisters { rr: v, ..self },
            SpecialRegister::Rs => SpecialRegisters { rs: v, ..self },
            SpecialRegister::Rt => SpecialRegisters { rt: v, ..self },
            SpecialRegister::Ru => SpecialRegisters { ru: v, ..self },
            SpecialRegister::Rv => SpecialRegisters { rv: v, ..self },
            SpecialRegister::Rw => SpecialRegisters { rw: v, ..self },
            SpecialRegister::Rx => SpecialRegisters { rx: v, ..self },
            SpecialRegister::Ry => SpecialRegisters { ry: v, ..self },
            SpecialRegister::Rz => SpecialRegisters { rz: v, ..self },
            SpecialRegister::Rbb => SpecialRegisters { rbb: v, ..self },
            SpecialRegister::Rtt => SpecialRegisters { rtt: v, ..self },
            SpecialRegister::Rww => SpecialRegisters { rww: v, ..self },
            SpecialRegister::Rxx => SpecialRegisters { rxx: v, ..self },
            SpecialRegister::Ryy => SpecialRegisters { ryy: v, ..self },
            SpecialRegister::Rzz => SpecialRegisters { rzz: v, ..self },
        }
    }

    /// All registers zero.
    pub closed spec fn zeroed() -> Self {
        SpecialRegisters { ra: 0, rb: 0, rc: 0, rd: 0, re: 0, rf: 0, rg: 0, rh: 0, ri: 0, rj: 0, rk: 0, rl: 0, rm: 0, rn: 0, ro: 0, rp: 0, rq: 0, rr: 0, rs: 0, rt: 0, ru: 0, rv: 0, rw: 0, rx: 0, ry: 0, rz: 0, rbb: 0, rtt: 0, rww: 0, rxx: 0, ryy: 0, rzz: 0 }
    }

    pub fn new() -> (s: Self)
        ensures
            s == Self::zeroed(),
            forall|reg: SpecialRegister| s.value(reg) == 0,
    {
        SpecialRegisters { ra: 0, rb: 0, rc: 0, rd: 0, re: 0, rf: 0, rg: 0, rh: 0, ri: 0, rj: 0, rk: 0, rl: 0, rm: 0, rn: 0, ro: 0, rp: 0, rq: 0, rr: 0, rs: 0, rt: 0, ru: 0, rv: 0, rw: 0, rx: 0, ry: 0, rz: 0, rbb: 0, rtt: 0, rww: 0, rxx: 0, ryy: 0, rzz: 0 }
    }

    pub fn get(&self, reg: SpecialRegister) -> (v: u64)
        ensures
            v == self.value(reg),
    {
        match reg {
            SpecialRegister::Ra => self.ra,
            SpecialRegister::Rb => self.rb,
            SpecialRegister::Rc => self.rc,
            SpecialRegister::Rd => self.rd,
            SpecialRegister::Re => self.re,
            SpecialRegister::Rf => self.rf,
            SpecialRegister::Rg => self.rg,
            SpecialRegister::Rh => self.rh,
            SpecialRegister::Ri => self.ri,
            SpecialRegister::Rj => self.rj,
            SpecialRegister::Rk => self.rk,
            SpecialRegister::Rl => self.rl,
            SpecialRegister::Rm => self.rm,
            SpecialRegister::Rn => self.rn,
            SpecialRegister::Ro => self.ro,
            SpecialRegister::Rp => self.rp,
            SpecialRegister::Rq => self.rq,
            SpecialRegister::Rr => self.rr,
            SpecialRegister::Rs => self.rs,
            SpecialRegister::Rt => self.rt,
            SpecialRegister::Ru => self.ru,
            SpecialRegister::Rv => self.rv,
            SpecialRegister::Rw => self.rw,
            SpecialRegister::Rx => self.rx,
            SpecialRegister::Ry => self.ry,
            SpecialRegister::Rz => self.rz,
            SpecialRegister::Rbb => self.rbb,
            SpecialRegister::Rtt => self.rtt,
            SpecialRegister::Rww => self.rww,
            SpecialRegister::Rxx => self.rxx,
            SpecialRegister::Ryy => self.ryy,
            SpecialRegister::Rzz => self.rzz,
        }
    }

    pub fn set(&mut self, reg: SpecialRegister, value: u64)
        ensures
            *final(self) == old(self).with(reg, value),
            forall|r: SpecialRegister| final(self).value(r) == if r == reg { value } else { old(self).value(r) },
    {
        match reg {
            SpecialRegister::Ra => self.ra = value,
            SpecialRegister::Rb => self.rb = value,
            SpecialRegister::Rc => self.rc = value,
            SpecialRegister::Rd => self.rd = value,
            SpecialRegister::Re => self.re = value,
            SpecialRegister::Rf => self.rf = value,
            SpecialRegister::Rg => self.rg = value,
            SpecialRegister::Rh => self.rh = value,
            SpecialRegister::Ri => self.ri = value,
            SpecialRegister::Rj => self.rj = value,
            SpecialRegister::Rk => self.rk = value,
            SpecialRegister::Rl => self.rl = value,
            SpecialRegister::Rm => self.rm = value,
            SpecialRegister::Rn => self.rn = value,
            SpecialRegister::Ro => self.ro = value,
            SpecialRegister::Rp => self.rp = value,
            SpecialRegister::Rq => self.rq = value,
            SpecialRegister::Rr => self.rr = value,
            SpecialRegister::Rs => self.rs = value,
            SpecialRegister::Rt => self.rt = value,
            SpecialRegister::Ru => self.ru = value,
            SpecialRegister::Rv => self.rv = value,
            SpecialRegister::Rw => self.rw = value,
            SpecialRegister::Rx => self.rx = value,
            SpecialRegister::Ry => self.ry = value,
            SpecialRegister::Rz => self.rz = value,
            SpecialRegister::Rbb => self.rbb = value,
            SpecialRegister::Rtt => self.rtt = value,
            SpecialRegister::Rww => self.rww = value,
            SpecialRegister::Rxx => self.rxx = value,
            SpecialRegister::Ryy => self.ryy = value,
            SpecialRegister::Rzz => self.rzz = value,
        }
    }

    /// Each special register with its value, in the order of [`SpecialRegister::ALL`].
    pub fn iter(&self) -> (v: Vec<(SpecialRegister, u64)>)
        ensures
            v@.len() == 32,
            forall|i: int| 0 <= i < 32 ==> spec_index(#[trigger] v@[i].0) == i && v@[i].1 == self.value(v@[i].0),
    {
        let mut v: Vec<(SpecialRegister, u64)> = Vec::new();
        v.push((SpecialRegister::Ra, self.ra));
        v.push((SpecialRegister::Rb, self.rb));
        v.push((SpecialRegister::Rc, self.rc));
        v.push((SpecialRegister::Rd, self.rd));
        v.push((SpecialRegister::Re, self.re));
        v.push((SpecialRegister::Rf, self.rf));
        v.push((SpecialRegister::Rg, self.rg));
        v.push((SpecialRegister::Rh, self.rh));
        v.push((SpecialRegister::Ri, self.ri));
        v.push((SpecialRegister::Rj, self.rj));
        v.push((SpecialRegister::Rk, self.rk));
        v.push((SpecialRegister::Rl, self.rl));
        v.push((SpecialRegister::Rm, self.rm));
        v.push((SpecialRegister::Rn, self.rn));
        v.push((SpecialRegister::Ro, self.ro));
        v.push((SpecialRegister::Rp, self.rp));
        v.push((SpecialRegister::Rq, self.rq));
        v.push((SpecialRegister::Rr, self.rr));
        v.push((SpecialRegister::Rs, self.rs));
        v.push((SpecialRegister::Rt, self.rt));
        v.push((SpecialRegister::Ru, self.ru));
        v.push((SpecialRegister::Rv, self.rv));
        v.push((SpecialRegister::Rw, self.rw));
        v.push((SpecialRegister::Rx, self.rx));
        v.push((SpecialRegister::Ry, self.ry));
        v.push((SpecialRegister::Rz, self.rz));
        v.push((SpecialRegister::Rbb, self.rbb));
        v.push((SpecialRegister::Rtt, self.rtt));
        v.push((SpecialRegister::Rww, self.rww));
        v.push((SpecialRegister::Rxx, self.rxx));
        v.push((SpecialRegister::Ryy, self.ryy));
        v.push((SpecialRegister::Rzz, self.rzz));
        v
    }
}


/// What [`SpecialRegisters::with`] changes.
#[verifier::spinoff_prover]
#[verifier::rlimit(100)]
pub broadcast proof fn lemma_with_value(s: SpecialRegisters, reg: SpecialRegister, v: u64, r: SpecialRegister)
    ensures
        #[trigger] s.with(reg, v).value(r) == if r == reg { v } else { s.value(r) },
{
    match reg {
        SpecialRegister::Ra => {},
        SpecialRegister::Rb => {},
        SpecialRegister::Rc => {},
        SpecialRegister::Rd => {},
        SpecialRegister::Re => {},
        SpecialRegister::Rf => {},
        SpecialRegister::Rg => {},
        SpecialRegister::Rh => {},
        SpecialRegister::Ri => {},
        SpecialRegister::Rj => {},
        SpecialRegister::Rk => {},
        SpecialRegister::Rl => {},
        SpecialRegister::Rm => {},
        SpecialRegister::Rn => {},
        SpecialRegister::Ro => {},
        SpecialRegister::Rp => {},
        SpecialRegister::Rq => {},
        SpecialRegister::Rr => {},
        SpecialRegister::Rs => {},
        SpecialRegister::Rt => {},
        SpecialRegister::Ru => {},
        SpecialRegister::Rv => {},
        SpecialRegister::Rw => {},
        SpecialRegister::Rx => {},
        SpecialRegister::Ry => {},
        SpecialRegister::Rz => {},
        SpecialRegister::Rbb => {},
        SpecialRegister::Rtt => {},
        SpecialRegister::Rww => {},
        SpecialRegister::Rxx => {},
        SpecialRegister::Ryy => {},
        SpecialRegister::Rzz => {},
    }
}

/// A machine with special registers, general registers and memory.
pub struct Machine {
    pub special: SpecialRegisters,
    pub general: GeneralRegisters,
    pub memory: Memory,
}

impl Machine {
    pub fn new() -> (m: Self)
        ensures
            m.special == SpecialRegisters::zeroed(),
            m.general@ == Seq::new(256, |i: int| 0u64),
            m.memory@ == Map::<u64, u8>::empty(),
    {
        Self { special: SpecialRegisters::new(), general: GeneralRegisters::new(), memory: Memory::new() }
    }

    /// Clears all registers and memory.
    pub fn reset(&mut self)
        ensures
            final(self).special == SpecialRegisters::zeroed(),
            final(self).general@ == Seq::new(256, |i: int| 0u64),
            final(self).memory@ == Map::<u64, u8>::empty(),
    {
        self.special = SpecialRegisters::new();
        self.general = GeneralRegisters::new();
        self.memory = Memory::new();
    }
}


impl Default for SpecialRegisters {
    fn default() -> (r: Self)
        ensures
            r == SpecialRegisters::zeroed(),
    {
        Self::new()
    }
}


impl Default for Machine {
    fn default() -> (r: Self)
        ensures
            r.special == SpecialRegisters::zeroed() && r.general@ == Seq::new(256, |i: int| 0u64) && r.memory@ == Map::<u64, u8>::empty(),
    {
        Self::new()
    }
}

} // verus!
