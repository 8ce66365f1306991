//! The register file: 256 general registers and the 32 special registers,
//! named and encoded as on the MMIX reference card.

use vstd::prelude::*;

verus! {

/// A special register of the machine.
#[derive(Debug, Clone, Copy, PartialEq, Eq, Hash, Structural)]
pub enum SpecialRegister {
    /// Arithmetic status register.
    Ra,
    /// Bootstrap register (trip).
    Rb,
    /// Cycle counter.
    Rc,
    /// Dividend register.
    Rd,
    /// Epsilon register.
    Re,
    /// Failure location register.
    Rf,
    /// Global threshold register.
    Rg,
    /// Himult register.
    Rh,
    /// Interval counter.
    Ri,
    /// Return-jump register.
    Rj,
    /// Interrupt mask register.
    Rk,
    /// Local threshold register.
    Rl,
    /// Multiplex mask register.
    Rm,
    /// Serial number.
    Rn,
    /// Register stack offset.
    Ro,
    /// Prediction register.
    Rp,
    /// Interrupt request register.
    Rq,
    /// Remainder register.
    Rr,
    /// Register stack pointer.
    Rs,
    /// Trap address register.
    Rt,
    /// Usage counter.
    Ru,
    /// Virtual translation register.
    Rv,
    /// Where-interrupted register (trip).
    Rw,
    /// Execution register (trip).
    Rx,
    /// Y operand (trip).
    Ry,
    /// Z operand (trip).
    Rz,
    /// Bootstrap register (trap).
    Rbb,
    /// Dynamic trap address register.
    Rtt,
    /// Where-interrupted register (dynamic trap).
    Rww,
    /// Execution register (trap).
    Rxx,
    /// Y operand (trap).
    Ryy,
    /// Z operand (trap).
    Rzz,
}

/// The encoding of each special register, as GET and PUT name it.
pub open spec fn spec_encoding(reg: SpecialRegister) -> u8 {
    match reg {
        SpecialRegister::Ra => 21,
        SpecialRegister::Rb => 0,
        SpecialRegister::Rc => 8,
        SpecialRegister::Rd => 1,
        SpecialRegister::Re => 2,
        SpecialRegister::Rf => 22,
        SpecialRegister::Rg => 19,
        SpecialRegister::Rh => 3,
        SpecialRegister::Ri => 12,
        SpecialRegister::Rj => 4,
        SpecialRegister::Rk => 15,
        SpecialRegister::Rl => 20,
        SpecialRegister::Rm => 5,
        SpecialRegister::Rn => 9,
        SpecialRegister::Ro => 10,
        SpecialRegister::Rp => 23,
        SpecialRegister::Rq => 16,
        SpecialRegister::Rr => 6,
        SpecialRegister::Rs => 11,
        SpecialRegister::Rt => 13,
        SpecialRegister::Ru => 17,
        SpecialRegister::Rv => 18,
        SpecialRegister::Rw => 24,
        SpecialRegister::Rx => 25,
        SpecialRegister::Ry => 26,
        SpecialRegister::Rz => 27,
        SpecialRegister::Rbb => 7,
        SpecialRegister::Rtt => 14,
        SpecialRegister::Rww => 28,
        SpecialRegister::Rxx => 29,
        SpecialRegister::Ryy => 30,
        SpecialRegister::Rzz => 31,
    }
}

/// The special register that an encoding names, if any.
pub open spec fn spec_from_encoding(enc: u8) -> Option<SpecialRegister> {
    match enc {
        21 => Some(SpecialRegister::Ra),
        0 => Some(SpecialRegister::Rb),
        8 => Some(SpecialRegister::Rc),
        1 => Some(SpecialRegister::Rd),
        2 => Some(SpecialRegister::Re),
        22 => Some(SpecialRegister::Rf),
        19 => Some(SpecialRegister::Rg),
        3 => Some(SpecialRegister::Rh),
        12 => Some(SpecialRegister::Ri),
        4 => Some(SpecialRegister::Rj),
        15 => Some(SpecialRegister::Rk),
        20 => Some(SpecialRegister::Rl),
        5 => Some(SpecialRegister::Rm),
        9 => Some(SpecialRegister::Rn),
        10 => Some(SpecialRegister::Ro),
        23 => Some(SpecialRegister::Rp),
        16 => Some(SpecialRegister::Rq),
        6 => Some(SpecialRegister::Rr),
        11 => Some(SpecialRegister::Rs),
        13 => Some(SpecialRegister::Rt),
        17 => Some(SpecialRegister::Ru),
        18 => Some(SpecialRegister::Rv),
        24 => Some(SpecialRegister::Rw),
        25 => Some(SpecialRegister::Rx),
        26 => Some(SpecialRegister::Ry),
        27 => Some(SpecialRegister::Rz),
        7 => Some(SpecialRegister::Rbb),
        14 => Some(SpecialRegister::Rtt),
        28 => Some(SpecialRegister::Rww),
        29 => Some(SpecialRegister::Rxx),
        30 => Some(SpecialRegister::Ryy),
        31 => Some(SpecialRegister::Rzz),
        _ => None,
    }
}

/// The lower-case name of each special register.
pub open spec fn spec_reg_name(reg: SpecialRegister) -> &'static str {
    match reg {
        SpecialRegister::Ra => "ra",
        SpecialRegister::Rb => "rb",
        SpecialRegister::Rc => "rc",
        SpecialRegister::Rd => "rd",
        SpecialRegister::Re => "re",
        SpecialRegister::Rf => "rf",
        SpecialRegister::Rg => "rg",
        SpecialRegister::Rh => "rh",
        SpecialRegister::Ri => "ri",
        SpecialRegister::Rj => "rj",
        SpecialRegister::Rk => "rk",
        SpecialRegister::Rl => "rl",
        SpecialRegister::Rm => "rm",
        SpecialRegister::Rn => "rn",
        SpecialRegister::Ro => "ro",
        SpecialRegister::Rp => "rp",
        SpecialRegister::Rq => "rq",
        SpecialRegister::Rr => "rr",
        SpecialRegister::Rs => "rs",
        SpecialRegister::Rt => "rt",
        SpecialRegister::Ru => "ru",
        SpecialRegister::Rv => "rv",
        SpecialRegister::Rw => "rw",
        SpecialRegister::Rx => "rx",
        SpecialRegister::Ry => "ry",
        SpecialRegister::Rz => "rz",
        SpecialRegister::Rbb => "rbb",
        SpecialRegister::Rtt => "rtt",
        SpecialRegister::Rww => "rww",
        SpecialRegister::Rxx => "rxx",
        SpecialRegister::Ryy => "ryy",
        SpecialRegister::Rzz => "rzz",
    }
}

/// The position of each special register in [`SpecialRegister::ALL`].
pub open spec fn spec_index(reg: SpecialRegister) -> int {
    match reg {
        SpecialRegister::Ra => 0,
        SpecialRegister::Rb => 1,
        SpecialRegister::Rc => 2,
        SpecialRegister::Rd => 3,
        SpecialRegister::Re => 4,
        SpecialRegister::Rf => 5,
        SpecialRegister::Rg => 6,
        SpecialRegister::Rh => 7,
        SpecialRegister::Ri => 8,
        SpecialRegister::Rj => 9,
        SpecialRegister::Rk => 10,
        SpecialRegister::Rl => 11,
        SpecialRegister::Rm => 12,
        SpecialRegister::Rn => 13,
        SpecialRegister::Ro => 14,
        SpecialRegister::Rp => 15,
        SpecialRegister::Rq => 16,
        SpecialRegister::Rr => 17,
        SpecialRegister::Rs => 18,
        SpecialRegister::Rt => 19,
        SpecialRegister::Ru => 20,
        SpecialRegister::Rv => 21,
        SpecialRegister::Rw => 22,
        SpecialRegister::Rx => 23,
        SpecialRegister::Ry => 24,
        SpecialRegister::Rz => 25,
        SpecialRegister::Rbb => 26,
        SpecialRegister::Rtt => 27,
        SpecialRegister::Rww => 28,
        SpecialRegister::Rxx => 29,
        SpecialRegister::Ryy => 30,
        SpecialRegister::Rzz => 31,
    }
}

/// The special register at each position of [`SpecialRegister::ALL`].
pub open spec fn spec_reg_at(i: int) -> SpecialRegister {
    if i == 0 {
        SpecialRegister::Ra
    } else if i == 1 {
        SpecialRegister::Rb
    } else if i == 2 {
        SpecialRegister::Rc
    } else if i == 3 {
        SpecialRegister::Rd
    } else if i == 4 {
        SpecialRegister::Re
    } else if i == 5 {
        SpecialRegister::Rf
    } else if i == 6 {
        SpecialRegister::Rg
    } else if i == 7 {
        SpecialRegister::Rh
    } else if i == 8 {
        SpecialRegister::Ri
    } else if i == 9 {
        SpecialRegister::Rj
    } else if i == 10 {
        SpecialRegister::Rk
    } else if i == 11 {
        SpecialRegister::Rl
    } else if i == 12 {
        SpecialRegister::Rm
    } else if i == 13 {
        SpecialRegister::Rn
    } else if i == 14 {
        SpecialRegister::Ro
    } else if i == 15 {
        SpecialRegister::Rp
    } else if i == 16 {
        SpecialRegister::Rq
    } else if i == 17 {
        SpecialRegister::Rr
    } else if i == 18 {
        SpecialRegister::Rs
    } else if i == 19 {
        SpecialRegister::Rt
    } else if i == 20 {
        SpecialRegister::Ru
    } else if i == 21 {
        SpecialRegister::Rv
    } else if i == 22 {
        SpecialRegister::Rw
    } else if i == 23 {
        SpecialRegister::Rx
    } else if i == 24 {
        SpecialRegister::Ry
    } else if i == 25 {
        SpecialRegister::Rz
    } else if i == 26 {
        SpecialRegister::Rbb
    } else if i == 27 {
        SpecialRegister::Rtt
    } else if i == 28 {
        SpecialRegister::Rww
    } else if i == 29 {
        SpecialRegister::Rxx
    } else if i == 30 {
        SpecialRegister::Ryy
    } else if i == 31 {
        SpecialRegister::Rzz
    } else {
        SpecialRegister::Rzz
    }
}

/// The special register at a position of [`SpecialRegister::ALL`].
pub fn reg_at(i: usize) -> (r: SpecialRegister)
    requires
        i < 32,
    ensures
        r == spec_reg_at(i as int),
        spec_index(r) == i,
{
    match i {
        0 => SpecialRegister::Ra,
        1 => SpecialRegister::Rb,
        2 => SpecialRegister::Rc,
        3 => SpecialRegister::Rd,
        4 => SpecialRegister::Re,
        5 => SpecialRegister::Rf,
        6 => SpecialRegister::Rg,
        7 => SpecialRegister::Rh,
        8 => SpecialRegister::Ri,
        9 => SpecialRegister::Rj,
        10 => SpecialRegister::Rk,
        11 => SpecialRegister::Rl,
        12 => SpecialRegister::Rm,
        13 => SpecialRegister::Rn,
        14 => SpecialRegister::Ro,
        15 => SpecialRegister::Rp,
        16 => SpecialRegister::Rq,
        17 => SpecialRegister::Rr,
        18 => SpecialRegister::Rs,
        19 => SpecialRegister::Rt,
        20 => SpecialRegister::Ru,
        21 => SpecialRegister::Rv,
        22 => SpecialRegister::Rw,
        23 => SpecialRegister::Rx,
        24 => SpecialRegister::Ry,
        25 => SpecialRegister::Rz,
        26 => SpecialRegister::Rbb,
        27 => SpecialRegister::Rtt,
        28 => SpecialRegister::Rww,
        29 => SpecialRegister::Rxx,
        30 => SpecialRegister::Ryy,
        _ => SpecialRegister::Rzz,
    }
}

impl SpecialRegister {
    /// Every special register, in declaration order.
    pub const ALL: [SpecialRegister; 32] = [
        SpecialRegister::Ra,
        SpecialRegister::Rb,
        SpecialRegister::Rc,
        SpecialRegister::Rd,
        SpecialRegister::Re,
        SpecialRegister::Rf,
        SpecialRegister::Rg,
        SpecialRegister::Rh,
        SpecialRegister::Ri,
        SpecialRegister::Rj,
        SpecialRegister::Rk,
        SpecialRegister::Rl,
        SpecialRegister::Rm,
        SpecialRegister::Rn,
        SpecialRegister::Ro,
        SpecialRegister::Rp,
        SpecialRegister::Rq,
        SpecialRegister::Rr,
        SpecialRegister::Rs,
        SpecialRegister::Rt,
        SpecialRegister::Ru,
        SpecialRegister::Rv,
        SpecialRegister::Rw,
        SpecialRegister::Rx,
        SpecialRegister::Ry,
        SpecialRegister::Rz,
        SpecialRegister::Rbb,
        SpecialRegister::Rtt,
        SpecialRegister::Rww,
        SpecialRegister::Rxx,
        SpecialRegister::Ryy,
        SpecialRegister::Rzz,
    ];

    /// The number of special registers.
    pub const COUNT: usize = 32;

    pub fn name(self) -> (n: &'static str)
        ensures
            n == spec_reg_name(self),
    {
        match self {
            SpecialRegister::Ra => "ra",
            SpecialRegister::Rb => "rb",
            SpecialRegister::Rc => "rc",
            SpecialRegister::Rd => "rd",
            SpecialRegister::Re => "re",
            SpecialRegister::Rf => "rf",
            SpecialRegister::Rg => "rg",
            SpecialRegister::Rh => "rh",
            SpecialRegister::Ri => "ri",
            SpecialRegister::Rj => "rj",
            SpecialRegister::Rk => "rk",
            SpecialRegister::Rl => "rl",
            SpecialRegister::Rm => "rm",
            SpecialRegister::Rn => "rn",
            SpecialRegister::Ro => "ro",
            SpecialRegister::Rp => "rp",
            SpecialRegister::Rq => "rq",
            SpecialRegister::Rr => "rr",
            SpecialRegister::Rs => "rs",
            SpecialRegister::Rt => "rt",
            SpecialRegister::Ru => "ru",
            SpecialRegister::Rv => "rv",
            SpecialRegister::Rw => "rw",
            SpecialRegister::Rx => "rx",
            SpecialRegister::Ry => "ry",
            SpecialRegister::Rz => "rz",
            SpecialRegister::Rbb => "rbb",
            SpecialRegister::Rtt => "rtt",
            SpecialRegister::Rww => "rww",
            SpecialRegister::Rxx => "rxx",
            SpecialRegister::Ryy => "ryy",
            SpecialRegister::Rzz => "rzz",
        }
    }

    pub fn encoding(self) -> (e: u8)
        ensures
            e == spec_encoding(self),
    {
        match self {
            SpecialRegister::Ra => 21,
            SpecialRegister::Rb => 0,
            SpecialRegister::Rc => 8,
            SpecialRegister::Rd => 1,
            SpecialRegister::Re => 2,
            SpecialRegister::Rf => 22,
            SpecialRegister::Rg => 19,
            SpecialRegister::Rh => 3,
            SpecialRegister::Ri => 12,
            SpecialRegister::Rj => 4,
            SpecialRegister::Rk => 15,
            SpecialRegister::Rl => 20,
            SpecialRegister::Rm => 5,
            SpecialRegister::Rn => 9,
            SpecialRegister::Ro => 10,
            SpecialRegister::Rp => 23,
            SpecialRegister::Rq => 16,
            SpecialRegister::Rr => 6,
            SpecialRegister::Rs => 11,
            SpecialRegister::Rt => 13,
            SpecialRegister::Ru => 17,
            SpecialRegister::Rv => 18,
            SpecialRegister::Rw => 24,
            SpecialRegister::Rx => 25,
            SpecialRegister::Ry => 26,
            SpecialRegister::Rz => 27,
            SpecialRegister::Rbb => 7,
            SpecialRegister::Rtt => 14,
            SpecialRegister::Rww => 28,
            SpecialRegister::Rxx => 29,
            SpecialRegister::Ryy => 30,
            SpecialRegister::Rzz => 31,
        }
    }

    pub fn from_encoding(enc: u8) -> (r: Option<Self>)
        ensures
            r == spec_from_encoding(enc),
            r matches Some(reg) ==> spec_encoding(reg) == enc,
            r is None ==> forall|reg: SpecialRegister| spec_encoding(reg) != enc,
    {
        proof {
            lemma_encoding_bijective();
        }
        match enc {
            21 => Some(SpecialRegister::Ra),
            0 => Some(SpecialRegister::Rb),
            8 => Some(SpecialRegister::Rc),
            1 => Some(SpecialRegister::Rd),
            2 => Some(SpecialRegister::Re),
            22 => Some(SpecialRegister::Rf),
            19 => Some(SpecialRegister::Rg),
            3 => Some(SpecialRegister::Rh),
            12 => Some(SpecialRegister::Ri),
            4 => Some(SpecialRegister::Rj),
            15 => Some(SpecialRegister::Rk),
            20 => Some(SpecialRegister::Rl),
            5 => Some(SpecialRegister::Rm),
            9 => Some(SpecialRegister::Rn),
            10 => Some(SpecialRegister::Ro),
            23 => Some(SpecialRegister::Rp),
            16 => Some(SpecialRegister::Rq),
            6 => Some(SpecialRegister::Rr),
            11 => Some(SpecialRegister::Rs),
            13 => Some(SpecialRegister::Rt),
            17 => Some(SpecialRegister::Ru),
            18 => Some(SpecialRegister::Rv),
            24 => Some(SpecialRegister::Rw),
            25 => Some(SpecialRegister::Rx),
            26 => Some(SpecialRegister::Ry),
            27 => Some(SpecialRegister::Rz),
            7 => Some(SpecialRegister::Rbb),
            14 => Some(SpecialRegister::Rtt),
            28 => Some(SpecialRegister::Rww),
            29 => Some(SpecialRegister::Rxx),
            30 => Some(SpecialRegister::Ryy),
            31 => Some(SpecialRegister::Rzz),
            _ => None,
        }
    }
}

/// Encoding and decoding special registers are inverse to each other.
pub proof fn lemma_encoding_bijective()
    ensures
        forall|reg: SpecialRegister| #[trigger] spec_from_encoding(spec_encoding(reg)) == Some(reg),
        forall|enc: u8| #[trigger] spec_from_encoding(enc) matches Some(reg) ==> spec_encoding(reg) == enc,
        forall|enc: u8| #[trigger] spec_from_encoding(enc) is None ==> forall|reg: SpecialRegister| spec_encoding(reg) != enc,
{
    assert forall|reg: SpecialRegister| #[trigger] spec_from_encoding(spec_encoding(reg)) == Some(reg) by {
        match reg {
            SpecialRegister::Ra => {},
            SpecialRegister::Rb => {},
            SpecialRegister::Rc => {},
            SpecialRegister::Rd => {},
            SpecialRegister::Re => {},
            SpecialRegister::Rf => {},
            SpecialRegister::Rg => {},
            SpecialRegister::Rh => {},
            SpecialRegister::Ri => {},
            SpecialRegister::Rj => {},
            SpecialRegister::Rk => {},
            SpecialRegister::Rl => {},
            SpecialRegister::Rm => {},
            SpecialRegister::Rn => {},
            SpecialRegister::Ro => {},
            SpecialRegister::Rp => {},
            SpecialRegister::Rq => {},
            SpecialRegister::Rr => {},
            SpecialRegister::Rs => {},
            SpecialRegister::Rt => {},
            SpecialRegister::Ru => {},
            SpecialRegister::Rv => {},
            SpecialRegister::Rw => {},
            SpecialRegister::Rx => {},
            SpecialRegister::Ry => {},
            SpecialRegister::Rz => {},
            SpecialRegister::Rbb => {},
            SpecialRegister::Rtt => {},
            SpecialRegister::Rww => {},
            SpecialRegister::Rxx => {},
            SpecialRegister::Ryy => {},
            SpecialRegister::Rzz => {},
        }
    }
    assert forall|enc: u8| #[trigger] spec_from_encoding(enc) is None implies forall|reg: SpecialRegister| spec_encoding(reg) != enc by {
        assert forall|reg: SpecialRegister| spec_encoding(reg) != enc by {
            match reg {
                SpecialRegister::Ra => {},
                SpecialRegister::Rb => {},
                SpecialRegister::Rc => {},
                SpecialRegister::Rd => {},
                SpecialRegister::Re => {},
                SpecialRegister::Rf => {},
                SpecialRegister::Rg => {},
                SpecialRegister::Rh => {},
                SpecialRegister::Ri => {},
                SpecialRegister::Rj => {},
                SpecialRegister::Rk => {},
                SpecialRegister::Rl => {},
                SpecialRegister::Rm => {},
                SpecialRegister::Rn => {},
                SpecialRegister::Ro => {},
                SpecialRegister::Rp => {},
                SpecialRegister::Rq => {},
                SpecialRegister::Rr => {},
                SpecialRegister::Rs => {},
                SpecialRegister::Rt => {},
                SpecialRegister::Ru => {},
                SpecialRegister::Rv => {},
                SpecialRegister::Rw => {},
                SpecialRegister::Rx => {},
                SpecialRegister::Ry => {},
                SpecialRegister::Rz => {},
                SpecialRegister::Rbb => {},
                SpecialRegister::Rtt => {},
                SpecialRegister::Rww => {},
                SpecialRegister::Rxx => {},
                SpecialRegister::Ryy => {},
                SpecialRegister::Rzz => {},
            }
        }
    }
}

/// The values of all special registers.
#[derive(Debug, Clone, Copy)]
pub struct SpecialRegisters {
    ra: u64,
    rb: u64,
    rc: u64,
    rd: u64,
    re: u64,
    rf: u64,
    rg: u64,
    rh: u64,
    ri: u64,
    rj: u64,
    rk: u64,
    rl: u64,
    rm: u64,
    rn: u64,
    ro: u64,
    rp: u64,
    rq: u64,
    rr: u64,
    rs: u64,
    rt: u64,
    ru: u64,
    rv: u64,
    rw: u64,
    rx: u64,
    ry: u64,
    rz: u64,
    rbb: u64,
    rtt: u64,
    rww: u64,
    rxx: u64,
    ryy: u64,
    rzz: u64,
}

impl SpecialRegisters {
    /// The value held in one special register.
    pub closed spec fn value(self, reg: SpecialRegister) -> u64 {
        match reg {
            SpecialRegister::Ra => self.ra,
            SpecialRegister::Rb => self.rb,
            SpecialRegister::Rc => self.rc,
            SpecialRegister::Rd => self.rd,
            SpecialRegister::Re => self.re,
            SpecialRegister::Rf => self.rf,
            SpecialRegister::Rg => self.rg,
            SpecialRegister::Rh => self.rh,
            SpecialRegister::Ri => self.ri,
            SpecialRegister::Rj => self.rj,
            SpecialRegister::Rk => self.rk,
            SpecialRegister::Rl => self.rl,
            SpecialRegister::Rm => self.rm,
            SpecialRegister::Rn => self.rn,
            SpecialRegister::Ro => self.ro,
            SpecialRegister::Rp => self.rp,
            SpecialRegister::Rq => self.rq,
            SpecialRegister::Rr => self.rr,
            SpecialRegister::Rs => self.rs,
            SpecialRegister::Rt => self.rt,
            SpecialRegister::Ru => self.ru,
            SpecialRegister::Rv => self.rv,
            SpecialRegister::Rw => self.rw,
            SpecialRegister::Rx => self.rx,
            SpecialRegister::Ry => self.ry,
            SpecialRegister::Rz => self.rz,
            SpecialRegister::Rbb => self.rbb,
            SpecialRegister::Rtt => self.rtt,
            SpecialRegister::Rww => self.rww,
            SpecialRegister::Rxx => self.rxx,
            SpecialRegister::Ryy => self.ryy,
            SpecialRegister::Rzz => self.rzz,
        }
    }

    /// The registers with one register replaced.
    pub closed spec fn with(self, reg: SpecialRegister, v: u64) -> Self {
        match reg {
            SpecialRegister::Ra => SpecialRegisters { ra: v, ..self },
            SpecialRegister::Rb => SpecialRegisters { rb: v, ..self },
            SpecialRegister::Rc => SpecialRegisters { rc: v, ..self },
            SpecialRegister::Rd => SpecialRegisters { rd: v, ..self },
            SpecialRegister::Re => SpecialRegisters { re: v, ..self },
            SpecialRegister::Rf => SpecialRegisters { rf: v, ..self },
            SpecialRegister::Rg => SpecialRegisters { rg: v, ..self },
            SpecialRegister::Rh => SpecialRegisters { rh: v, ..self },
            SpecialRegister::Ri => SpecialRegisters { ri: v, ..self },
            SpecialRegister::Rj => SpecialRegisters { rj: v, ..self },
            SpecialRegister::Rk => SpecialRegisters { rk: v, ..self },
            SpecialRegister::Rl => SpecialRegisters { rl: v, ..self },
            SpecialRegister::Rm => SpecialRegisters { rm: v, ..self },
            SpecialRegister::Rn => SpecialRegisters { rn: v, ..self },
            SpecialRegister::Ro => SpecialRegisters { ro: v, ..self },
            SpecialRegister::Rp => SpecialRegisters { rp: v, ..self },
            SpecialRegister::Rq => SpecialRegisters { rq: v, ..self },
            SpecialRegister::Rr => SpecialRegisters { rr: v, ..self },
            SpecialRegister::Rs => SpecialRegisters { rs: v, ..self },
            SpecialRegister::Rt => SpecialRegisters { rt: v, ..self },
            SpecialRegister::Ru => SpecialRegisters { ru: v, ..self },
            SpecialRegister::Rv => SpecialRegisters { rv: v, ..self },
            SpecialRegister::Rw => SpecialRegisters { rw: v, ..self },
            SpecialRegister::Rx => SpecialRegisters { rx: v, ..self },
            SpecialRegister::Ry => SpecialRegisters { ry: v, ..self },
            SpecialRegister::Rz => SpecialRegisters { rz: v, ..self },
            SpecialRegister::Rbb => SpecialRegisters { rbb: v, ..self },
            SpecialRegister::Rtt => SpecialRegisters { rtt: v, ..self },
            SpecialRegister::Rww => SpecialRegisters { rww: v, ..self },
            SpecialRegister::Rxx => SpecialRegisters { rxx: v, ..self },
            SpecialRegister::Ryy => SpecialRegisters { ryy: v, ..self },
            SpecialRegister::Rzz => SpecialRegisters { rzz: v, ..self },
        }
    }

    /// All registers zero.
    pub closed spec fn zeroed() -> Self {
        SpecialRegisters { ra: 0, rb: 0, rc: 0, rd: 0, re: 0, rf: 0, rg: 0, rh: 0, ri: 0, rj: 0, rk: 0, rl: 0, rm: 0, rn: 0, ro: 0, rp: 0, rq: 0, rr: 0, rs: 0, rt: 0, ru: 0, rv: 0, rw: 0, rx: 0, ry: 0, rz: 0, rbb: 0, rtt: 0, rww: 0, rxx: 0, ryy: 0, rzz: 0 }
    }

    pub fn new() -> (s: Self)
        ensures
            s == Self::zeroed(),
            forall|reg: SpecialRegister| s.value(reg) == 0,
    {
        SpecialRegisters { ra: 0, rb: 0, rc: 0, rd: 0, re: 0, rf: 0, rg: 0, rh: 0, ri: 0, rj: 0, rk: 0, rl: 0, rm: 0, rn: 0, ro: 0, rp: 0, rq: 0, rr: 0, rs: 0, rt: 0, ru: 0, rv: 0, rw: 0, rx: 0, ry: 0, rz: 0, rbb: 0, rtt: 0, rww: 0, rxx: 0, ryy: 0, rzz: 0 }
    }

    pub fn get(&self, reg: SpecialRegister) -> (v: u64)
        ensures
            v == self.value(reg),
    {
        match reg {
            SpecialRegister::Ra => self.ra,
            SpecialRegister::Rb => self.rb,
            SpecialRegister::Rc => self.rc,
            SpecialRegister::Rd => self.rd,
            SpecialRegister::Re => self.re,
            SpecialRegister::Rf => self.rf,
            SpecialRegister::Rg => self.rg,
            SpecialRegister::Rh => self.rh,
            SpecialRegister::Ri => self.ri,
            SpecialRegister::Rj => self.rj,
            SpecialRegister::Rk => self.rk,
            SpecialRegister::Rl => self.rl,
            SpecialRegister::Rm => self.rm,
            SpecialRegister::Rn => self.rn,
            SpecialRegister::Ro => self.ro,
            SpecialRegister::Rp => self.rp,
            SpecialRegister::Rq => self.rq,
            SpecialRegister::Rr => self.rr,
            SpecialRegister::Rs => self.rs,
            SpecialRegister::Rt => self.rt,
            SpecialRegister::Ru => self.ru,
            SpecialRegister::Rv => self.rv,
            SpecialRegister::Rw => self.rw,
            SpecialRegister::Rx => self.rx,
            SpecialRegister::Ry => self.ry,
            SpecialRegister::Rz => self.rz,
            SpecialRegister::Rbb => self.rbb,
            SpecialRegister::Rtt => self.rtt,
            SpecialRegister::Rww => self.rww,
            SpecialRegister::Rxx => self.rxx,
            SpecialRegister::Ryy => self.ryy,
            SpecialRegister::Rzz => self.rzz,
        }
    }

    pub fn set(&mut self, reg: SpecialRegister, value: u64)
        ensures
            *final(self) == old(self).with(reg, value),
            forall|r: SpecialRegister| final(self).value(r) == if r == reg { value } else { old(self).value(r) },
    {
        match reg {
            SpecialRegister::Ra => self.ra = value,
            SpecialRegister::Rb => self.rb = value,
            SpecialRegister::Rc => self.rc = value,
            SpecialRegister::Rd => self.rd = value,
            SpecialRegister::Re => self.re = value,
            SpecialRegister::Rf => self.rf = value,
            SpecialRegister::Rg => self.rg = value,
            SpecialRegister::Rh => self.rh = value,
            SpecialRegister::Ri => self.ri = value,
            SpecialRegister::Rj => self.rj = value,
            SpecialRegister::Rk => self.rk = value,
            SpecialRegister::Rl => self.rl = value,
            SpecialRegister::Rm => self.rm = value,
            SpecialRegister::Rn => self.rn = value,
            SpecialRegister::Ro => self.ro = value,
            SpecialRegister::Rp => self.rp = value,
            SpecialRegister::Rq => self.rq = value,
            SpecialRegister::Rr => self.rr = value,
            SpecialRegister::Rs => self.rs = value,
            SpecialRegister::Rt => self.rt = value,
            SpecialRegister::Ru => self.ru = value,
            SpecialRegister::Rv => self.rv = value,
            SpecialRegister::Rw => self.rw = value,
            SpecialRegister::Rx => self.rx = value,
            SpecialRegister::Ry => self.ry = value,
            SpecialRegister::Rz => self.rz = value,
            SpecialRegister::Rbb => self.rbb = value,
            SpecialRegister::Rtt => self.rtt = value,
            SpecialRegister::Rww => self.rww = value,
            SpecialRegister::Rxx => self.rxx = value,
            SpecialRegister::Ryy => self.ryy = value,
            SpecialRegister::Rzz => self.rzz = value,
        }
    }

    /// Each special register with its value, in the order of [`SpecialRegister::ALL`].
    pub fn iter(&self) -> (v: Vec<(SpecialRegister, u64)>)
        ensures
            v@.len() == 32,
            forall|i: int| 0 <= i < 32 ==> spec_index(#[trigger] v@[i].0) == i && v@[i].1 == self.value(v@[i].0),
    {
        let mut v: Vec<(SpecialRegister, u64)> = Vec::new();
        v.push((SpecialRegister::Ra, self.ra));
        v.push((SpecialRegister::Rb, self.rb));
        v.push((SpecialRegister::Rc, self.rc));
        v.push((SpecialRegister::Rd, self.rd));
        v.push((SpecialRegister::Re, self.re));
        v.push((SpecialRegister::Rf, self.rf));
        v.push((SpecialRegister::Rg, self.rg));
        v.push((SpecialRegister::Rh, self.rh));
        v.push((SpecialRegister::Ri, self.ri));
        v.push((SpecialRegister::Rj, self.rj));
        v.push((SpecialRegister::Rk, self.rk));
        v.push((SpecialRegister::Rl, self.rl));
        v.push((SpecialRegister::Rm, self.rm));
        v.push((SpecialRegister::Rn, self.rn));
        v.push((SpecialRegister::Ro, self.ro));
        v.push((SpecialRegister::Rp, self.rp));
        v.push((SpecialRegister::Rq, self.rq));
        v.push((SpecialRegister::Rr, self.rr));
        v.push((SpecialRegister::Rs, self.rs));
        v.push((SpecialRegister::Rt, self.rt));
        v.push((SpecialRegister::Ru, self.ru));
        v.push((SpecialRegister::Rv, self.rv));
        v.push((SpecialRegister::Rw, self.rw));
        v.push((SpecialRegister::Rx, self.rx));
        v.push((SpecialRegister::Ry, self.ry));
        v.push((SpecialRegister::Rz, self.rz));
        v.push((SpecialRegister::Rbb, self.rbb));
        v.push((SpecialRegister::Rtt, self.rtt));
        v.push((SpecialRegister::Rww, self.rww));
        v.push((SpecialRegister::Rxx, self.rxx));
        v.push((SpecialRegister::Ryy, self.ryy));
        v.push((SpecialRegister::Rzz, self.rzz));
        v
    }
}


/// What [`SpecialRegisters::with`] changes, and that the register values
/// determine the whole register set.
#[verifier::spinoff_prover]
#[verifier::rlimit(100)]
pub broadcast proof fn lemma_with_value(s: SpecialRegisters, reg: SpecialRegister, v: u64, r: SpecialRegister)
    ensures
        #[trigger] s.with(reg, v).value(r) == if r == reg { v } else { s.value(r) },
{
    match reg {
        SpecialRegister::Ra => {},
        SpecialRegister::Rb => {},
        SpecialRegister::Rc => {},
        SpecialRegister::Rd => {},
        SpecialRegister::Re => {},
        SpecialRegister::Rf => {},
        SpecialRegister::Rg => {},
        SpecialRegister::Rh => {},
        SpecialRegister::Ri => {},
        SpecialRegister::Rj => {},
        SpecialRegister::Rk => {},
        SpecialRegister::Rl => {},
        SpecialRegister::Rm => {},
        SpecialRegister::Rn => {},
        SpecialRegister::Ro => {},
        SpecialRegister::Rp => {},
        SpecialRegister::Rq => {},
        SpecialRegister::Rr => {},
        SpecialRegister::Rs => {},
        SpecialRegister::Rt => {},
        SpecialRegister::Ru => {},
        SpecialRegister::Rv => {},
        SpecialRegister::Rw => {},
        SpecialRegister::Rx => {},
        SpecialRegister::Ry => {},
        SpecialRegister::Rz => {},
        SpecialRegister::Rbb => {},
        SpecialRegister::Rtt => {},
        SpecialRegister::Rww => {},
        SpecialRegister::Rxx => {},
        SpecialRegister::Ryy => {},
        SpecialRegister::Rzz => {},
    }
}

/// Two register files that agree on every special register are the same value.
pub proof fn lemma_values_determine(s1: SpecialRegisters, s2: SpecialRegisters)
    requires
        forall|r: SpecialRegister| s1.value(r) == s2.value(r),
    ensures
        s1 == s2,
{
    assert(s1.value(SpecialRegister::Ra) == s2.value(SpecialRegister::Ra));
    assert(s1.value(SpecialRegister::Rb) == s2.value(SpecialRegister::Rb));
    assert(s1.value(SpecialRegister::Rc) == s2.value(SpecialRegister::Rc));
    assert(s1.value(SpecialRegister::Rd) == s2.value(SpecialRegister::Rd));
    assert(s1.value(SpecialRegister::Re) == s2.value(SpecialRegister::Re));
    assert(s1.value(SpecialRegister::Rf) == s2.value(SpecialRegister::Rf));
    assert(s1.value(SpecialRegister::Rg) == s2.value(SpecialRegister::Rg));
    assert(s1.value(SpecialRegister::Rh) == s2.value(SpecialRegister::Rh));
    assert(s1.value(SpecialRegister::Ri) == s2.value(SpecialRegister::Ri));
    assert(s1.value(SpecialRegister::Rj) == s2.value(SpecialRegister::Rj));
    assert(s1.value(SpecialRegister::Rk) == s2.value(SpecialRegister::Rk));
    assert(s1.value(SpecialRegister::Rl) == s2.value(SpecialRegister::Rl));
    assert(s1.value(SpecialRegister::Rm) == s2.value(SpecialRegister::Rm));
    assert(s1.value(SpecialRegister::Rn) == s2.value(SpecialRegister::Rn));
    assert(s1.value(SpecialRegister::Ro) == s2.value(SpecialRegister::Ro));
    assert(s1.value(SpecialRegister::Rp) == s2.value(SpecialRegister::Rp));
    assert(s1.value(SpecialRegister::Rq) == s2.value(SpecialRegister::Rq));
    assert(s1.value(SpecialRegister::Rr) == s2.value(SpecialRegister::Rr));
    assert(s1.value(SpecialRegister::Rs) == s2.value(SpecialRegister::Rs));
    assert(s1.value(SpecialRegister::Rt) == s2.value(SpecialRegister::Rt));
    assert(s1.value(SpecialRegister::Ru) == s2.value(SpecialRegister::Ru));
    assert(s1.value(SpecialRegister::Rv) == s2.value(SpecialRegister::Rv));
    assert(s1.value(SpecialRegister::Rw) == s2.value(SpecialRegister::Rw));
    assert(s1.value(SpecialRegister::Rx) == s2.value(SpecialRegister::Rx));
    assert(s1.value(SpecialRegister::Ry) == s2.value(SpecialRegister::Ry));
    assert(s1.value(SpecialRegister::Rz) == s2.value(SpecialRegister::Rz));
    assert(s1.value(SpecialRegister::Rbb) == s2.value(SpecialRegister::Rbb));
    assert(s1.value(SpecialRegister::Rtt) == s2.value(SpecialRegister::Rtt));
    assert(s1.value(SpecialRegister::Rww) == s2.value(SpecialRegister::Rww));
    assert(s1.value(SpecialRegister::Rxx) == s2.value(SpecialRegister::Rxx));
    assert(s1.value(SpecialRegister::Ryy) == s2.value(SpecialRegister::Ryy));
    assert(s1.value(SpecialRegister::Rzz) == s2.value(SpecialRegister::Rzz));
}

/// Every special register of a zeroed file reads 0.
pub proof fn lemma_zeroed_value(r: SpecialRegister)
    ensures
        SpecialRegisters::zeroed().value(r) == 0,
{
}

/// The 256 general registers `$0 ..= $255`.
pub struct GeneralRegisters {
    regs: [u64; 256],
}

impl View for GeneralRegisters {
    type V = Seq<u64>;

    closed spec fn view(&self) -> Seq<u64> {
        self.regs@
    }
}

impl GeneralRegisters {
    /// There are always 256 general registers.
    pub proof fn lemma_len(&self)
        ensures
            self@.len() == 256,
    {
    }

    pub fn new() -> (g: Self)
        ensures
            g@ == Seq::new(256, |i: int| 0u64),
    {
        let g = Self { regs: [0u64; 256] };
        assert(g@ =~= Seq::new(256, |i: int| 0u64));
        g
    }

    pub fn get(&self, index: u8) -> (v: u64)
        ensures
            v == self@[index as int],
            self@.len() == 256,
    {
        self.regs[index as usize]
    }

    pub fn set(&mut self, index: u8, value: u64)
        ensures
            final(self)@ == old(self)@.update(index as int, value),
            old(self)@.len() == 256,
    {
        self.regs[index as usize] = value;
    }

    /// Each register index with its value, in increasing index order.
    pub fn iter(&self) -> (v: Vec<(u8, u64)>)
        ensures
            v@.len() == 256,
            forall|i: int| 0 <= i < 256 ==> (#[trigger] v@[i]).0 == i && v@[i].1 == self@[i],
    {
        let mut v: Vec<(u8, u64)> = Vec::new();
        let mut i: u16 = 0;
        while i < 256
            invariant
                0 <= i <= 256,
                v@.len() == i,
                self@.len() == 256,
                forall|j: int| 0 <= j < i ==> (#[trigger] v@[j]).0 == j && v@[j].1 == self@[j],
            decreases 256 - i,
        {
            v.push((i as u8, self.regs[i as usize]));
            i = i + 1;
        }
        v
    }
}


impl Default for GeneralRegisters {
    fn default() -> (r: Self)
        ensures
            r@ == Seq::new(256, |i: int| 0u64),
    {
        Self::new()
    }
}


impl Default for SpecialRegisters {
    fn default() -> (r: Self)
        ensures
            r == SpecialRegisters::zeroed(),
    {
        Self::new()
    }
}

/// The names of the special registers in the order of their numbers, as
/// MMIX numbers them (rB is 0, rD 1, rE 2, rH 3, ..., rZZ 31).
pub open spec fn mmix_special_names() -> Seq<Seq<char>> {
    seq!["rb"@, "rd"@, "re"@, "rh"@, "rj"@, "rm"@, "rr"@, "rbb"@, "rc"@, "rn"@, "ro"@, "rs"@, "ri"@, "rt"@, "rtt"@, "rk"@, "rq"@, "ru"@, "rv"@, "rg"@, "rl"@, "ra"@, "rf"@, "rp"@, "rw"@, "rx"@, "ry"@, "rz"@, "rww"@, "rxx"@, "ryy"@, "rzz"@]
}

/// The numbers of the special registers are MMIX's: the register with
/// number `n` bears the `n`-th name of MMIX's list, every register's number
/// is the place of its name there, and numbers from 32 on name none.
pub proof fn lemma_special_numbers()
    ensures
        forall|n: u8|
            n < 32 ==> (#[trigger] spec_from_encoding(n) matches Some(r) && spec_reg_name(r)@
                == mmix_special_names()[n as int]),
        forall|n: u8| n >= 32 ==> #[trigger] spec_from_encoding(n) is None,
        forall|r: SpecialRegister|
            spec_encoding(r) < 32 && mmix_special_names()[#[trigger] spec_encoding(r) as int]
                == spec_reg_name(r)@,
{
    assert forall|n: u8| n < 32 implies (#[trigger] spec_from_encoding(n) matches Some(r)
        && spec_reg_name(r)@ == mmix_special_names()[n as int]) by {
        if n == 0 { assert(spec_reg_name(spec_from_encoding(n)->Some_0)@ == mmix_special_names()[0]); }
        if n == 1 { assert(spec_reg_name(spec_from_encoding(n)->Some_0)@ == mmix_special_names()[1]); }
        if n == 2 { assert(spec_reg_name(spec_from_encoding(n)->Some_0)@ == mmix_special_names()[2]); }
        if n == 3 { assert(spec_reg_name(spec_from_encoding(n)->Some_0)@ == mmix_special_names()[3]); }
        if n == 4 { assert(spec_reg_name(spec_from_encoding(n)->Some_0)@ == mmix_special_names()[4]); }
        if n == 5 { assert(spec_reg_name(spec_from_encoding(n)->Some_0)@ == mmix_special_names()[5]); }
        if n == 6 { assert(spec_reg_name(spec_from_encoding(n)->Some_0)@ == mmix_special_names()[6]); }
        if n == 7 { assert(spec_reg_name(spec_from_encoding(n)->Some_0)@ == mmix_special_names()[7]); }
        if n == 8 { assert(spec_reg_name(spec_from_encoding(n)->Some_0)@ == mmix_special_names()[8]); }
        if n == 9 { assert(spec_reg_name(spec_from_encoding(n)->Some_0)@ == mmix_special_names()[9]); }
        if n == 10 { assert(spec_reg_name(spec_from_encoding(n)->Some_0)@ == mmix_special_names()[10]); }
        if n == 11 { assert(spec_reg_name(spec_from_encoding(n)->Some_0)@ == mmix_special_names()[11]); }
        if n == 12 { assert(spec_reg_name(spec_from_encoding(n)->Some_0)@ == mmix_special_names()[12]); }
        if n == 13 { assert(spec_reg_name(spec_from_encoding(n)->Some_0)@ == mmix_special_names()[13]); }
        if n == 14 { assert(spec_reg_name(spec_from_encoding(n)->Some_0)@ == mmix_special_names()[14]); }
        if n == 15 { assert(spec_reg_name(spec_from_encoding(n)->Some_0)@ == mmix_special_names()[15]); }
        if n == 16 { assert(spec_reg_name(spec_from_encoding(n)->Some_0)@ == mmix_special_names()[16]); }
        if n == 17 { assert(spec_reg_name(spec_from_encoding(n)->Some_0)@ == mmix_special_names()[17]); }
        if n == 18 { assert(spec_reg_name(spec_from_encoding(n)->Some_0)@ == mmix_special_names()[18]); }
        if n == 19 { assert(spec_reg_name(spec_from_encoding(n)->Some_0)@ == mmix_special_names()[19]); }
        if n == 20 { assert(spec_reg_name(spec_from_encoding(n)->Some_0)@ == mmix_special_names()[20]); }
        if n == 21 { assert(spec_reg_name(spec_from_encoding(n)->Some_0)@ == mmix_special_names()[21]); }
        if n == 22 { assert(spec_reg_name(spec_from_encoding(n)->Some_0)@ == mmix_special_names()[22]); }
        if n == 23 { assert(spec_reg_name(spec_from_encoding(n)->Some_0)@ == mmix_special_names()[23]); }
        if n == 24 { assert(spec_reg_name(spec_from_encoding(n)->Some_0)@ == mmix_special_names()[24]); }
        if n == 25 { assert(spec_reg_name(spec_from_encoding(n)->Some_0)@ == mmix_special_names()[25]); }
        if n == 26 { assert(spec_reg_name(spec_from_encoding(n)->Some_0)@ == mmix_special_names()[26]); }
        if n == 27 { assert(spec_reg_name(spec_from_encoding(n)->Some_0)@ == mmix_special_names()[27]); }
        if n == 28 { assert(spec_reg_name(spec_from_encoding(n)->Some_0)@ == mmix_special_names()[28]); }
        if n == 29 { assert(spec_reg_name(spec_from_encoding(n)->Some_0)@ == mmix_special_names()[29]); }
        if n == 30 { assert(spec_reg_name(spec_from_encoding(n)->Some_0)@ == mmix_special_names()[30]); }
        if n == 31 { assert(spec_reg_name(spec_from_encoding(n)->Some_0)@ == mmix_special_names()[31]); }
    }
    assert forall|r: SpecialRegister| spec_encoding(r) < 32 && mmix_special_names()[#[trigger] spec_encoding(r) as int]
        == spec_reg_name(r)@ by {
        match r {
            SpecialRegister::Ra => { assert(mmix_special_names()[21] == "ra"@); },
            SpecialRegister::Rb => { assert(mmix_special_names()[0] == "rb"@); },
            SpecialRegister::Rc => { assert(mmix_special_names()[8] == "rc"@); },
            SpecialRegister::Rd => { assert(mmix_special_names()[1] == "rd"@); },
            SpecialRegister::Re => { assert(mmix_special_names()[2] == "re"@); },
            SpecialRegister::Rf => { assert(mmix_special_names()[22] == "rf"@); },
            SpecialRegister::Rg => { assert(mmix_special_names()[19] == "rg"@); },
            SpecialRegister::Rh => { assert(mmix_special_names()[3] == "rh"@); },
            SpecialRegister::Ri => { assert(mmix_special_names()[12] == "ri"@); },
            SpecialRegister::Rj => { assert(mmix_special_names()[4] == "rj"@); },
            SpecialRegister::Rk => { assert(mmix_special_names()[15] == "rk"@); },
            SpecialRegister::Rl => { assert(mmix_special_names()[20] == "rl"@); },
            SpecialRegister::Rm => { assert(mmix_special_names()[5] == "rm"@); },
            SpecialRegister::Rn => { assert(mmix_special_names()[9] == "rn"@); },
            SpecialRegister::Ro => { assert(mmix_special_names()[10] == "ro"@); },
            SpecialRegister::Rp => { assert(mmix_special_names()[23] == "rp"@); },
            SpecialRegister::Rq => { assert(mmix_special_names()[16] == "rq"@); },
            SpecialRegister::Rr => { assert(mmix_special_names()[6] == "rr"@); },
            SpecialRegister::Rs => { assert(mmix_special_names()[11] == "rs"@); },
            SpecialRegister::Rt => { assert(mmix_special_names()[13] == "rt"@); },
            SpecialRegister::Ru => { assert(mmix_special_names()[17] == "ru"@); },
            SpecialRegister::Rv => { assert(mmix_special_names()[18] == "rv"@); },
            SpecialRegister::Rw => { assert(mmix_special_names()[24] == "rw"@); },
            SpecialRegister::Rx => { assert(mmix_special_names()[25] == "rx"@); },
            SpecialRegister::Ry => { assert(mmix_special_names()[26] == "ry"@); },
            SpecialRegister::Rz => { assert(mmix_special_names()[27] == "rz"@); },
            SpecialRegister::Rbb => { assert(mmix_special_names()[7] == "rbb"@); },
            SpecialRegister::Rtt => { assert(mmix_special_names()[14] == "rtt"@); },
            SpecialRegister::Rww => { assert(mmix_special_names()[28] == "rww"@); },
            SpecialRegister::Rxx => { assert(mmix_special_names()[29] == "rxx"@); },
            SpecialRegister::Ryy => { assert(mmix_special_names()[30] == "ryy"@); },
            SpecialRegister::Rzz => { assert(mmix_special_names()[31] == "rzz"@); },
            SpecialRegister::Ra => { assert(mmix_special_names()[21] == "ra"@); },
            SpecialRegister::Rb => { assert(mmix_special_names()[0] == "rb"@); },
            SpecialRegister::Rc => { assert(mmix_special_names()[8] == "rc"@); },
            SpecialRegister::Rd => { assert(mmix_special_names()[1] == "rd"@); },
            SpecialRegister::Re => { assert(mmix_special_names()[2] == "re"@); },
            SpecialRegister::Rf => { assert(mmix_special_names()[22] == "rf"@); },
            SpecialRegister::Rg => { assert(mmix_special_names()[19] == "rg"@); },
            SpecialRegister::Rh => { assert(mmix_special_names()[3] == "rh"@); },
            SpecialRegister::Ri => { assert(mmix_special_names()[12] == "ri"@); },
            SpecialRegister::Rj => { assert(mmix_special_names()[4] == "rj"@); },
            SpecialRegister::Rk => { assert(mmix_special_names()[15] == "rk"@); },
            SpecialRegister::Rl => { assert(mmix_special_names()[20] == "rl"@); },
            SpecialRegister::Rm => { assert(mmix_special_names()[5] == "rm"@); },
            SpecialRegister::Rn => { assert(mmix_special_names()[9] == "rn"@); },
            SpecialRegister::Ro => { assert(mmix_special_names()[10] == "ro"@); },
            SpecialRegister::Rp => { assert(mmix_special_names()[23] == "rp"@); },
            SpecialRegister::Rq => { assert(mmix_special_names()[16] == "rq"@); },
            SpecialRegister::Rr => { assert(mmix_special_names()[6] == "rr"@); },
            SpecialRegister::Rs => { assert(mmix_special_names()[11] == "rs"@); },
            SpecialRegister::Rt => { assert(mmix_special_names()[13] == "rt"@); },
            SpecialRegister::Ru => { assert(mmix_special_names()[17] == "ru"@); },
            SpecialRegister::Rv => { assert(mmix_special_names()[18] == "rv"@); },
            SpecialRegister::Rw => { assert(mmix_special_names()[24] == "rw"@); },
            SpecialRegister::Rx => { assert(mmix_special_names()[25] == "rx"@); },
            SpecialRegister::Ry => { assert(mmix_special_names()[26] == "ry"@); },
            SpecialRegister::Rz => { assert(mmix_special_names()[27] == "rz"@); },
            SpecialRegister::Rbb => { assert(mmix_special_names()[7] == "rbb"@); },
            SpecialRegister::Rtt => { assert(mmix_special_names()[14] == "rtt"@); },
            SpecialRegister::Rww => { assert(mmix_special_names()[28] == "rww"@); },
            SpecialRegister::Rxx => { assert(mmix_special_names()[29] == "rxx"@); },
            SpecialRegister::Ryy => { assert(mmix_special_names()[30] == "ryy"@); },
            SpecialRegister::Rzz => { assert(mmix_special_names()[31] == "rzz"@); },
        }
    }
}

} // verus!
