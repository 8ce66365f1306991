//! The MMIX opcode table: mnemonic, operand format and timing of each of
//! the 256 opcodes. An opcode's value is its position in the table.

use vstd::prelude::*;

verus! {

/// How the assembler reads and encodes the operands of an instruction.
#[derive(Debug, Clone, Copy, PartialEq, Eq, Structural)]
pub enum OperandFormat {
    /// `$X, $Y, $Z | $X, $Y, Z` — the immediate variant is the next opcode.
    ThreeReg,
    /// `$X, YZ` — 16-bit immediate (SETH, SETL, ORH, ...).
    RegImm16,
    /// `$X, YZ` — relative branch (BZ, BNZ, GETA, ...).
    Branch,
    /// `XYZ` — 24-bit relative jump (JMP).
    Jump,
    /// `$X, Y, $Z | $X, Y, Z` — Y is an inline constant (NEG).
    NegStyle,
    /// `X, Y, Z` — three immediates (TRAP, TRIP).
    Trap,
    /// `GET $X, special_reg`.
    Get,
    /// `PUT special_reg, $Z | imm`.
    Put,
    /// `POP X, YZ`.
    Pop,
    /// No or one operand (RESUME, SAVE, UNSAVE, SYNC, SWYM).
    Special,
    /// PUSHJ / PUSHGO.
    PushJ,
}

/// Cost of an instruction in clock cycles (`v`, υ) and memory accesses (`mu`, μ).
#[derive(Debug, Clone, Copy, PartialEq, Eq, Structural)]
pub struct Timing {
    pub v: u64,
    pub mu: u64,
}

impl Timing {
    pub fn new(v: u64, mu: u64) -> (t: Self)
        ensures
            t.v == v,
            t.mu == mu,
    {
        Self { v, mu }
    }
}

/// The mnemonic of each opcode.
pub open spec fn opcode_name(opcode: u8) -> &'static str {
    match opcode {
        0x00 => "TRAP",
        0x01 => "FCMP",
        0x02 => "FUN",
        0x03 => "FEQL",
        0x04 => "FADD",
        0x05 => "FIX",
        0x06 => "FSUB",
        0x07 => "FIXU",
        0x08 => "FLOT",
        0x09 => "FLOTI",
        0x0A => "FLOTU",
        0x0B => "FLOTUI",
        0x0C => "SFLOT",
        0x0D => "SFLOTI",
        0x0E => "SFLOTU",
        0x0F => "SFLOTUI",
        0x10 => "FMUL",
        0x11 => "FCMPE",
        0x12 => "FUNE",
        0x13 => "FEQLE",
        0x14 => "FDIV",
        0x15 => "FSQRT",
        0x16 => "FREM",
        0x17 => "FINT",
        0x18 => "MUL",
        0x19 => "MULI",
        0x1A => "MULU",
        0x1B => "MULUI",
        0x1C => "DIV",
        0x1D => "DIVI",
        0x1E => "DIVU",
        0x1F => "DIVUI",
        0x20 => "ADD",
        0x21 => "ADDI",
        0x22 => "ADDU",
        0x23 => "ADDUI",
        0x24 => "SUB",
        0x25 => "SUBI",
        0x26 => "SUBU",
        0x27 => "SUBUI",
        0x28 => "2ADDU",
        0x29 => "2ADDUI",
        0x2A => "4ADDU",
        0x2B => "4ADDUI",
        0x2C => "8ADDU",
        0x2D => "8ADDUI",
        0x2E => "16ADDU",
        0x2F => "16ADDUI",
        0x30 => "CMP",
        0x31 => "CMPI",
        0x32 => "CMPU",
        0x33 => "CMPUI",
        0x34 => "NEG",
        0x35 => "NEGI",
        0x36 => "NEGU",
        0x37 => "NEGUI",
        0x38 => "SL",
        0x39 => "SLI",
        0x3A => "SLU",
        0x3B => "SLUI",
        0x3C => "SR",
        0x3D => "SRI",
        0x3E => "SRU",
        0x3F => "SRUI",
        0x40 => "BN",
        0x41 => "BNB",
        0x42 => "BZ",
        0x43 => "BZB",
        0x44 => "BP",
        0x45 => "BPB",
        0x46 => "BOD",
        0x47 => "BODB",
        0x48 => "BNN",
        0x49 => "BNNB",
        0x4A => "BNZ",
        0x4B => "BNZB",
        0x4C => "BNP",
        0x4D => "BNPB",
        0x4E => "BEV",
        0x4F => "BEVB",
        0x50 => "PBN",
        0x51 => "PBNB",
        0x52 => "PBZ",
        0x53 => "PBZB",
        0x54 => "PBP",
        0x55 => "PBPB",
        0x56 => "PBOD",
        0x57 => "PBODB",
        0x58 => "PBNN",
        0x59 => "PBNNB",
        0x5A => "PBNZ",
        0x5B => "PBNZB",
        0x5C => "PBNP",
        0x5D => "PBNPB",
        0x5E => "PBEV",
        0x5F => "PBEVB",
        0x60 => "CSN",
        0x61 => "CSNI",
        0x62 => "CSZ",
        0x63 => "CSZI",
        0x64 => "CSP",
        0x65 => "CSPI",
        0x66 => "CSOD",
        0x67 => "CSODI",
        0x68 => "CSNN",
        0x69 => "CSNNI",
        0x6A => "CSNZ",
        0x6B => "CSNZI",
        0x6C => "CSNP",
        0x6D => "CSNPI",
        0x6E => "CSEV",
        0x6F => "CSEVI",
        0x70 => "ZSN",
        0x71 => "ZSNI",
        0x72 => "ZSZ",
        0x73 => "ZSZI",
        0x74 => "ZSP",
        0x75 => "ZSPI",
        0x76 => "ZSOD",
        0x77 => "ZSODI",
        0x78 => "ZSNN",
        0x79 => "ZSNNI",
        0x7A => "ZSNZ",
        0x7B => "ZSNZI",
        0x7C => "ZSNP",
        0x7D => "ZSNPI",
        0x7E => "ZSEV",
        0x7F => "ZSEVI",
        0x80 => "LDB",
        0x81 => "LDBI",
        0x82 => "LDBU",
        0x83 => "LDBUI",
        0x84 => "LDW",
        0x85 => "LDWI",
        0x86 => "LDWU",
        0x87 => "LDWUI",
        0x88 => "LDT",
        0x89 => "LDTI",
        0x8A => "LDTU",
        0x8B => "LDTUI",
        0x8C => "LDO",
        0x8D => "LDOI",
        0x8E => "LDOU",
        0x8F => "LDOUI",
        0x90 => "LDSF",
        0x91 => "LDSFI",
        0x92 => "LDHT",
        0x93 => "LDHTI",
        0x94 => "CSWAP",
        0x95 => "CSWAPI",
        0x96 => "LDUNC",
        0x97 => "LDUNCI",
        0x98 => "LDVTS",
        0x99 => "LDVTSI",
        0x9A => "PRELD",
        0x9B => "PRELDI",
        0x9C => "PREGO",
        0x9D => "PREGOI",
        0x9E => "GO",
        0x9F => "GOI",
        0xA0 => "STB",
        0xA1 => "STBI",
        0xA2 => "STBU",
        0xA3 => "STBUI",
        0xA4 => "STW",
        0xA5 => "STWI",
        0xA6 => "STWU",
        0xA7 => "STWUI",
        0xA8 => "STT",
        0xA9 => "STTI",
        0xAA => "STTU",
        0xAB => "STTUI",
        0xAC => "STO",
        0xAD => "STOI",
        0xAE => "STOU",
        0xAF => "STOUI",
        0xB0 => "STSF",
        0xB1 => "STSFI",
        0xB2 => "STHT",
        0xB3 => "STHTI",
        0xB4 => "STCO",
        0xB5 => "STCOI",
        0xB6 => "STUNC",
        0xB7 => "STUNCI",
        0xB8 => "SYNCD",
        0xB9 => "SYNCDI",
        0xBA => "PREST",
        0xBB => "PRESTI",
        0xBC => "SYNCID",
        0xBD => "SYNCIDI",
        0xBE => "PUSHGO",
        0xBF => "PUSHGOI",
        0xC0 => "OR",
        0xC1 => "ORI",
        0xC2 => "ORN",
        0xC3 => "ORNI",
        0xC4 => "NOR",
        0xC5 => "NORI",
        0xC6 => "XOR",
        0xC7 => "XORI",
        0xC8 => "AND",
        0xC9 => "ANDI",
        0xCA => "ANDN",
        0xCB => "ANDNI",
        0xCC => "NAND",
        0xCD => "NANDI",
        0xCE => "NXOR",
        0xCF => "NXORI",
        0xD0 => "BDIF",
        0xD1 => "BDIFI",
        0xD2 => "WDIF",
        0xD3 => "WDIFI",
        0xD4 => "TDIF",
        0xD5 => "TDIFI",
        0xD6 => "ODIF",
        0xD7 => "ODIFI",
        0xD8 => "MUX",
        0xD9 => "MUXI",
        0xDA => "SADD",
        0xDB => "SADDI",
        0xDC => "MOR",
        0xDD => "MORI",
        0xDE => "MXOR",
        0xDF => "MXORI",
        0xE0 => "SETH",
        0xE1 => "SETMH",
        0xE2 => "SETML",
        0xE3 => "SETL",
        0xE4 => "INCH",
        0xE5 => "INCMH",
        0xE6 => "INCML",
        0xE7 => "INCL",
        0xE8 => "ORH",
        0xE9 => "ORMH",
        0xEA => "ORML",
        0xEB => "ORL",
        0xEC => "ANDNH",
        0xED => "ANDNMH",
        0xEE => "ANDNML",
        0xEF => "ANDNL",
        0xF0 => "JMP",
        0xF1 => "JMPB",
        0xF2 => "PUSHJ",
        0xF3 => "PUSHJB",
        0xF4 => "GETA",
        0xF5 => "GETAB",
        0xF6 => "PUT",
        0xF7 => "PUTI",
        0xF8 => "POP",
        0xF9 => "RESUME",
        0xFA => "SAVE",
        0xFB => "UNSAVE",
        0xFC => "SYNC",
        0xFD => "SWYM",
        0xFE => "GET",
        0xFF => "TRIP",
    }
}

/// The timing of each opcode.
pub open spec fn opcode_timing(opcode: u8) -> Timing {
    match opcode {
        0x00 => Timing { v: 5, mu: 0 },
        0x01 => Timing { v: 1, mu: 0 },
        0x02 => Timing { v: 1, mu: 0 },
        0x03 => Timing { v: 1, mu: 0 },
        0x04 => Timing { v: 4, mu: 0 },
        0x05 => Timing { v: 4, mu: 0 },
        0x06 => Timing { v: 4, mu: 0 },
        0x07 => Timing { v: 4, mu: 0 },
        0x08 => Timing { v: 4, mu: 0 },
        0x09 => Timing { v: 4, mu: 0 },
        0x0A => Timing { v: 4, mu: 0 },
        0x0B => Timing { v: 4, mu: 0 },
        0x0C => Timing { v: 4, mu: 0 },
        0x0D => Timing { v: 4, mu: 0 },
        0x0E => Timing { v: 4, mu: 0 },
        0x0F => Timing { v: 4, mu: 0 },
        0x10 => Timing { v: 4, mu: 0 },
        0x11 => Timing { v: 4, mu: 0 },
        0x12 => Timing { v: 1, mu: 0 },
        0x13 => Timing { v: 4, mu: 0 },
        0x14 => Timing { v: 40, mu: 0 },
        0x15 => Timing { v: 40, mu: 0 },
        0x16 => Timing { v: 4, mu: 0 },
        0x17 => Timing { v: 4, mu: 0 },
        0x18 => Timing { v: 10, mu: 0 },
        0x19 => Timing { v: 10, mu: 0 },
        0x1A => Timing { v: 10, mu: 0 },
        0x1B => Timing { v: 10, mu: 0 },
        0x1C => Timing { v: 60, mu: 0 },
        0x1D => Timing { v: 60, mu: 0 },
        0x1E => Timing { v: 60, mu: 0 },
        0x1F => Timing { v: 60, mu: 0 },
        0x20 => Timing { v: 1, mu: 0 },
        0x21 => Timing { v: 1, mu: 0 },
        0x22 => Timing { v: 1, mu: 0 },
        0x23 => Timing { v: 1, mu: 0 },
        0x24 => Timing { v: 1, mu: 0 },
        0x25 => Timing { v: 1, mu: 0 },
        0x26 => Timing { v: 1, mu: 0 },
        0x27 => Timing { v: 1, mu: 0 },
        0x28 => Timing { v: 1, mu: 0 },
        0x29 => Timing { v: 1, mu: 0 },
        0x2A => Timing { v: 1, mu: 0 },
        0x2B => Timing { v: 1, mu: 0 },
        0x2C => Timing { v: 1, mu: 0 },
        0x2D => Timing { v: 1, mu: 0 },
        0x2E => Timing { v: 1, mu: 0 },
        0x2F => Timing { v: 1, mu: 0 },
        0x30 => Timing { v: 1, mu: 0 },
        0x31 => Timing { v: 1, mu: 0 },
        0x32 => Timing { v: 1, mu: 0 },
        0x33 => Timing { v: 1, mu: 0 },
        0x34 => Timing { v: 1, mu: 0 },
        0x35 => Timing { v: 1, mu: 0 },
        0x36 => Timing { v: 1, mu: 0 },
        0x37 => Timing { v: 1, mu: 0 },
        0x38 => Timing { v: 1, mu: 0 },
        0x39 => Timing { v: 1, mu: 0 },
        0x3A => Timing { v: 1, mu: 0 },
        0x3B => Timing { v: 1, mu: 0 },
        0x3C => Timing { v: 1, mu: 0 },
        0x3D => Timing { v: 1, mu: 0 },
        0x3E => Timing { v: 1, mu: 0 },
        0x3F => Timing { v: 1, mu: 0 },
        0x40 => Timing { v: 1, mu: 0 },
        0x41 => Timing { v: 1, mu: 0 },
        0x42 => Timing { v: 1, mu: 0 },
        0x43 => Timing { v: 1, mu: 0 },
        0x44 => Timing { v: 1, mu: 0 },
        0x45 => Timing { v: 1, mu: 0 },
        0x46 => Timing { v: 1, mu: 0 },
        0x47 => Timing { v: 1, mu: 0 },
        0x48 => Timing { v: 1, mu: 0 },
        0x49 => Timing { v: 1, mu: 0 },
        0x4A => Timing { v: 1, mu: 0 },
        0x4B => Timing { v: 1, mu: 0 },
        0x4C => Timing { v: 1, mu: 0 },
        0x4D => Timing { v: 1, mu: 0 },
        0x4E => Timing { v: 1, mu: 0 },
        0x4F => Timing { v: 1, mu: 0 },
        0x50 => Timing { v: 3, mu: 0 },
        0x51 => Timing { v: 3, mu: 0 },
        0x52 => Timing { v: 3, mu: 0 },
        0x53 => Timing { v: 3, mu: 0 },
        0x54 => Timing { v: 3, mu: 0 },
        0x55 => Timing { v: 3, mu: 0 },
        0x56 => Timing { v: 3, mu: 0 },
        0x57 => Timing { v: 3, mu: 0 },
        0x58 => Timing { v: 3, mu: 0 },
        0x59 => Timing { v: 3, mu: 0 },
        0x5A => Timing { v: 3, mu: 0 },
        0x5B => Timing { v: 3, mu: 0 },
        0x5C => Timing { v: 3, mu: 0 },
        0x5D => Timing { v: 3, mu: 0 },
        0x5E => Timing { v: 3, mu: 0 },
        0x5F => Timing { v: 3, mu: 0 },
        0x60 => Timing { v: 1, mu: 0 },
        0x61 => Timing { v: 1, mu: 0 },
        0x62 => Timing { v: 1, mu: 0 },
        0x63 => Timing { v: 1, mu: 0 },
        0x64 => Timing { v: 1, mu: 0 },
        0x65 => Timing { v: 1, mu: 0 },
        0x66 => Timing { v: 1, mu: 0 },
        0x67 => Timing { v: 1, mu: 0 },
        0x68 => Timing { v: 1, mu: 0 },
        0x69 => Timing { v: 1, mu: 0 },
        0x6A => Timing { v: 1, mu: 0 },
        0x6B => Timing { v: 1, mu: 0 },
        0x6C => Timing { v: 1, mu: 0 },
        0x6D => Timing { v: 1, mu: 0 },
        0x6E => Timing { v: 1, mu: 0 },
        0x6F => Timing { v: 1, mu: 0 },
        0x70 => Timing { v: 1, mu: 0 },
        0x71 => Timing { v: 1, mu: 0 },
        0x72 => Timing { v: 1, mu: 0 },
        0x73 => Timing { v: 1, mu: 0 },
        0x74 => Timing { v: 1, mu: 0 },
        0x75 => Timing { v: 1, mu: 0 },
        0x76 => Timing { v: 1, mu: 0 },
        0x77 => Timing { v: 1, mu: 0 },
        0x78 => Timing { v: 1, mu: 0 },
        0x79 => Timing { v: 1, mu: 0 },
        0x7A => Timing { v: 1, mu: 0 },
        0x7B => Timing { v: 1, mu: 0 },
        0x7C => Timing { v: 1, mu: 0 },
        0x7D => Timing { v: 1, mu: 0 },
        0x7E => Timing { v: 1, mu: 0 },
        0x7F => Timing { v: 1, mu: 0 },
        0x80 => Timing { v: 1, mu: 1 },
        0x81 => Timing { v: 1, mu: 1 },
        0x82 => Timing { v: 1, mu: 1 },
        0x83 => Timing { v: 1, mu: 1 },
        0x84 => Timing { v: 1, mu: 1 },
        0x85 => Timing { v: 1, mu: 1 },
        0x86 => Timing { v: 1, mu: 1 },
        0x87 => Timing { v: 1, mu: 1 },
        0x88 => Timing { v: 1, mu: 1 },
        0x89 => Timing { v: 1, mu: 1 },
        0x8A => Timing { v: 1, mu: 1 },
        0x8B => Timing { v: 1, mu: 1 },
        0x8C => Timing { v: 1, mu: 1 },
        0x8D => Timing { v: 1, mu: 1 },
        0x8E => Timing { v: 1, mu: 1 },
        0x8F => Timing { v: 1, mu: 1 },
        0x90 => Timing { v: 1, mu: 1 },
        0x91 => Timing { v: 1, mu: 1 },
        0x92 => Timing { v: 1, mu: 1 },
        0x93 => Timing { v: 1, mu: 1 },
        0x94 => Timing { v: 2, mu: 2 },
        0x95 => Timing { v: 2, mu: 2 },
        0x96 => Timing { v: 1, mu: 1 },
        0x97 => Timing { v: 1, mu: 1 },
        0x98 => Timing { v: 1, mu: 0 },
        0x99 => Timing { v: 1, mu: 0 },
        0x9A => Timing { v: 1, mu: 0 },
        0x9B => Timing { v: 1, mu: 0 },
        0x9C => Timing { v: 1, mu: 0 },
        0x9D => Timing { v: 1, mu: 0 },
        0x9E => Timing { v: 3, mu: 0 },
        0x9F => Timing { v: 3, mu: 0 },
        0xA0 => Timing { v: 1, mu: 1 },
        0xA1 => Timing { v: 1, mu: 1 },
        0xA2 => Timing { v: 1, mu: 1 },
        0xA3 => Timing { v: 1, mu: 1 },
        0xA4 => Timing { v: 1, mu: 1 },
        0xA5 => Timing { v: 1, mu: 1 },
        0xA6 => Timing { v: 1, mu: 1 },
        0xA7 => Timing { v: 1, mu: 1 },
        0xA8 => Timing { v: 1, mu: 1 },
        0xA9 => Timing { v: 1, mu: 1 },
        0xAA => Timing { v: 1, mu: 1 },
        0xAB => Timing { v: 1, mu: 1 },
        0xAC => Timing { v: 1, mu: 1 },
        0xAD => Timing { v: 1, mu: 1 },
        0xAE => Timing { v: 1, mu: 1 },
        0xAF => Timing { v: 1, mu: 1 },
        0xB0 => Timing { v: 1, mu: 1 },
        0xB1 => Timing { v: 1, mu: 1 },
        0xB2 => Timing { v: 1, mu: 1 },
        0xB3 => Timing { v: 1, mu: 1 },
        0xB4 => Timing { v: 1, mu: 1 },
        0xB5 => Timing { v: 1, mu: 1 },
        0xB6 => Timing { v: 1, mu: 1 },
        0xB7 => Timing { v: 1, mu: 1 },
        0xB8 => Timing { v: 1, mu: 0 },
        0xB9 => Timing { v: 1, mu: 0 },
        0xBA => Timing { v: 1, mu: 0 },
        0xBB => Timing { v: 1, mu: 0 },
        0xBC => Timing { v: 1, mu: 0 },
        0xBD => Timing { v: 1, mu: 0 },
        0xBE => Timing { v: 3, mu: 0 },
        0xBF => Timing { v: 3, mu: 0 },
        0xC0 => Timing { v: 1, mu: 0 },
        0xC1 => Timing { v: 1, mu: 0 },
        0xC2 => Timing { v: 1, mu: 0 },
        0xC3 => Timing { v: 1, mu: 0 },
        0xC4 => Timing { v: 1, mu: 0 },
        0xC5 => Timing { v: 1, mu: 0 },
        0xC6 => Timing { v: 1, mu: 0 },
        0xC7 => Timing { v: 1, mu: 0 },
        0xC8 => Timing { v: 1, mu: 0 },
        0xC9 => Timing { v: 1, mu: 0 },
        0xCA => Timing { v: 1, mu: 0 },
        0xCB => Timing { v: 1, mu: 0 },
        0xCC => Timing { v: 1, mu: 0 },
        0xCD => Timing { v: 1, mu: 0 },
        0xCE => Timing { v: 1, mu: 0 },
        0xCF => Timing { v: 1, mu: 0 },
        0xD0 => Timing { v: 1, mu: 0 },
        0xD1 => Timing { v: 1, mu: 0 },
        0xD2 => Timing { v: 1, mu: 0 },
        0xD3 => Timing { v: 1, mu: 0 },
        0xD4 => Timing { v: 1, mu: 0 },
        0xD5 => Timing { v: 1, mu: 0 },
        0xD6 => Timing { v: 1, mu: 0 },
        0xD7 => Timing { v: 1, mu: 0 },
        0xD8 => Timing { v: 1, mu: 0 },
        0xD9 => Timing { v: 1, mu: 0 },
        0xDA => Timing { v: 1, mu: 0 },
        0xDB => Timing { v: 1, mu: 0 },
        0xDC => Timing { v: 1, mu: 0 },
        0xDD => Timing { v: 1, mu: 0 },
        0xDE => Timing { v: 1, mu: 0 },
        0xDF => Timing { v: 1, mu: 0 },
        0xE0 => Timing { v: 1, mu: 0 },
        0xE1 => Timing { v: 1, mu: 0 },
        0xE2 => Timing { v: 1, mu: 0 },
        0xE3 => Timing { v: 1, mu: 0 },
        0xE4 => Timing { v: 1, mu: 0 },
        0xE5 => Timing { v: 1, mu: 0 },
        0xE6 => Timing { v: 1, mu: 0 },
        0xE7 => Timing { v: 1, mu: 0 },
        0xE8 => Timing { v: 1, mu: 0 },
        0xE9 => Timing { v: 1, mu: 0 },
        0xEA => Timing { v: 1, mu: 0 },
        0xEB => Timing { v: 1, mu: 0 },
        0xEC => Timing { v: 1, mu: 0 },
        0xED => Timing { v: 1, mu: 0 },
        0xEE => Timing { v: 1, mu: 0 },
        0xEF => Timing { v: 1, mu: 0 },
        0xF0 => Timing { v: 1, mu: 0 },
        0xF1 => Timing { v: 1, mu: 0 },
        0xF2 => Timing { v: 1, mu: 0 },
        0xF3 => Timing { v: 1, mu: 0 },
        0xF4 => Timing { v: 1, mu: 0 },
        0xF5 => Timing { v: 1, mu: 0 },
        0xF6 => Timing { v: 1, mu: 0 },
        0xF7 => Timing { v: 1, mu: 0 },
        0xF8 => Timing { v: 3, mu: 0 },
        0xF9 => Timing { v: 5, mu: 0 },
        0xFA => Timing { v: 1, mu: 20 },
        0xFB => Timing { v: 1, mu: 20 },
        0xFC => Timing { v: 1, mu: 0 },
        0xFD => Timing { v: 1, mu: 0 },
        0xFE => Timing { v: 1, mu: 0 },
        0xFF => Timing { v: 5, mu: 0 },
    }
}

/// The operand format of each opcode.
pub open spec fn opcode_format(opcode: u8) -> OperandFormat {
    match opcode {
        0x00 => OperandFormat::Trap,
        0x01 => OperandFormat::ThreeReg,
        0x02 => OperandFormat::ThreeReg,
        0x03 => OperandFormat::ThreeReg,
        0x04 => OperandFormat::ThreeReg,
        0x05 => OperandFormat::ThreeReg,
        0x06 => OperandFormat::ThreeReg,
        0x07 => OperandFormat::ThreeReg,
        0x08 => OperandFormat::ThreeReg,
        0x09 => OperandFormat::ThreeReg,
        0x0A => OperandFormat::ThreeReg,
        0x0B => OperandFormat::ThreeReg,
        0x0C => OperandFormat::ThreeReg,
        0x0D => OperandFormat::ThreeReg,
        0x0E => OperandFormat::ThreeReg,
        0x0F => OperandFormat::ThreeReg,
        0x10 => OperandFormat::ThreeReg,
        0x11 => OperandFormat::ThreeReg,
        0x12 => OperandFormat::ThreeReg,
        0x13 => OperandFormat::ThreeReg,
        0x14 => OperandFormat::ThreeReg,
        0x15 => OperandFormat::ThreeReg,
        0x16 => OperandFormat::ThreeReg,
        0x17 => OperandFormat::ThreeReg,
        0x18 => OperandFormat::ThreeReg,
        0x19 => OperandFormat::ThreeReg,
        0x1A => OperandFormat::ThreeReg,
        0x1B => OperandFormat::ThreeReg,
        0x1C => OperandFormat::ThreeReg,
        0x1D => OperandFormat::ThreeReg,
        0x1E => OperandFormat::ThreeReg,
        0x1F => OperandFormat::ThreeReg,
        0x20 => OperandFormat::ThreeReg,
        0x21 => OperandFormat::ThreeReg,
        0x22 => OperandFormat::ThreeReg,
        0x23 => OperandFormat::ThreeReg,
        0x24 => OperandFormat::ThreeReg,
        0x25 => OperandFormat::ThreeReg,
        0x26 => OperandFormat::ThreeReg,
        0x27 => OperandFormat::ThreeReg,
        0x28 => OperandFormat::ThreeReg,
        0x29 => OperandFormat::ThreeReg,
        0x2A => OperandFormat::ThreeReg,
        0x2B => OperandFormat::ThreeReg,
        0x2C => OperandFormat::ThreeReg,
        0x2D => OperandFormat::ThreeReg,
        0x2E => OperandFormat::ThreeReg,
        0x2F => OperandFormat::ThreeReg,
        0x30 => OperandFormat::ThreeReg,
        0x31 => OperandFormat::ThreeReg,
        0x32 => OperandFormat::ThreeReg,
        0x33 => OperandFormat::ThreeReg,
        0x34 => OperandFormat::NegStyle,
        0x35 => OperandFormat::NegStyle,
        0x36 => OperandFormat::NegStyle,
        0x37 => OperandFormat::NegStyle,
        0x38 => OperandFormat::ThreeReg,
        0x39 => OperandFormat::ThreeReg,
        0x3A => OperandFormat::ThreeReg,
        0x3B => OperandFormat::ThreeReg,
        0x3C => OperandFormat::ThreeReg,
        0x3D => OperandFormat::ThreeReg,
        0x3E => OperandFormat::ThreeReg,
        0x3F => OperandFormat::ThreeReg,
        0x40 => OperandFormat::Branch,
        0x41 => OperandFormat::Branch,
        0x42 => OperandFormat::Branch,
        0x43 => OperandFormat::Branch,
        0x44 => OperandFormat::Branch,
        0x45 => OperandFormat::Branch,
        0x46 => OperandFormat::Branch,
        0x47 => OperandFormat::Branch,
        0x48 => OperandFormat::Branch,
        0x49 => OperandFormat::Branch,
        0x4A => OperandFormat::Branch,
        0x4B => OperandFormat::Branch,
        0x4C => OperandFormat::Branch,
        0x4D => OperandFormat::Branch,
        0x4E => OperandFormat::Branch,
        0x4F => OperandFormat::Branch,
        0x50 => OperandFormat::Branch,
        0x51 => OperandFormat::Branch,
        0x52 => OperandFormat::Branch,
        0x53 => OperandFormat::Branch,
        0x54 => OperandFormat::Branch,
        0x55 => OperandFormat::Branch,
        0x56 => OperandFormat::Branch,
        0x57 => OperandFormat::Branch,
        0x58 => OperandFormat::Branch,
        0x59 => OperandFormat::Branch,
        0x5A => OperandFormat::Branch,
        0x5B => OperandFormat::Branch,
        0x5C => OperandFormat::Branch,
        0x5D => OperandFormat::Branch,
        0x5E => OperandFormat::Branch,
        0x5F => OperandFormat::Branch,
        0x60 => OperandFormat::ThreeReg,
        0x61 => OperandFormat::ThreeReg,
        0x62 => OperandFormat::ThreeReg,
        0x63 => OperandFormat::ThreeReg,
        0x64 => OperandFormat::ThreeReg,
        0x65 => OperandFormat::ThreeReg,
        0x66 => OperandFormat::ThreeReg,
        0x67 => OperandFormat::ThreeReg,
        0x68 => OperandFormat::ThreeReg,
        0x69 => OperandFormat::ThreeReg,
        0x6A => OperandFormat::ThreeReg,
        0x6B => OperandFormat::ThreeReg,
        0x6C => OperandFormat::ThreeReg,
        0x6D => OperandFormat::ThreeReg,
        0x6E => OperandFormat::ThreeReg,
        0x6F => OperandFormat::ThreeReg,
        0x70 => OperandFormat::ThreeReg,
        0x71 => OperandFormat::ThreeReg,
        0x72 => OperandFormat::ThreeReg,
        0x73 => OperandFormat::ThreeReg,
        0x74 => OperandFormat::ThreeReg,
        0x75 => OperandFormat::ThreeReg,
        0x76 => OperandFormat::ThreeReg,
        0x77 => OperandFormat::ThreeReg,
        0x78 => OperandFormat::ThreeReg,
        0x79 => OperandFormat::ThreeReg,
        0x7A => OperandFormat::ThreeReg,
        0x7B => OperandFormat::ThreeReg,
        0x7C => OperandFormat::ThreeReg,
        0x7D => OperandFormat::ThreeReg,
        0x7E => OperandFormat::ThreeReg,
        0x7F => OperandFormat::ThreeReg,
        0x80 => OperandFormat::ThreeReg,
        0x81 => OperandFormat::ThreeReg,
        0x82 => OperandFormat::ThreeReg,
        0x83 => OperandFormat::ThreeReg,
        0x84 => OperandFormat::ThreeReg,
        0x85 => OperandFormat::ThreeReg,
        0x86 => OperandFormat::ThreeReg,
        0x87 => OperandFormat::ThreeReg,
        0x88 => OperandFormat::ThreeReg,
        0x89 => OperandFormat::ThreeReg,
        0x8A => OperandFormat::ThreeReg,
        0x8B => OperandFormat::ThreeReg,
        0x8C => OperandFormat::ThreeReg,
        0x8D => OperandFormat::ThreeReg,
        0x8E => OperandFormat::ThreeReg,
        0x8F => OperandFormat::ThreeReg,
        0x90 => OperandFormat::ThreeReg,
        0x91 => OperandFormat::ThreeReg,
        0x92 => OperandFormat::ThreeReg,
        0x93 => OperandFormat::ThreeReg,
        0x94 => OperandFormat::ThreeReg,
        0x95 => OperandFormat::ThreeReg,
        0x96 => OperandFormat::ThreeReg,
        0x97 => OperandFormat::ThreeReg,
        0x98 => OperandFormat::ThreeReg,
        0x99 => OperandFormat::ThreeReg,
        0x9A => OperandFormat::ThreeReg,
        0x9B => OperandFormat::ThreeReg,
        0x9C => OperandFormat::ThreeReg,
        0x9D => OperandFormat::ThreeReg,
        0x9E => OperandFormat::ThreeReg,
        0x9F => OperandFormat::ThreeReg,
        0xA0 => OperandFormat::ThreeReg,
        0xA1 => OperandFormat::ThreeReg,
        0xA2 => OperandFormat::ThreeReg,
        0xA3 => OperandFormat::ThreeReg,
        0xA4 => OperandFormat::ThreeReg,
        0xA5 => OperandFormat::ThreeReg,
        0xA6 => OperandFormat::ThreeReg,
        0xA7 => OperandFormat::ThreeReg,
        0xA8 => OperandFormat::ThreeReg,
        0xA9 => OperandFormat::ThreeReg,
        0xAA => OperandFormat::ThreeReg,
        0xAB => OperandFormat::ThreeReg,
        0xAC => OperandFormat::ThreeReg,
        0xAD => OperandFormat::ThreeReg,
        0xAE => OperandFormat::ThreeReg,
        0xAF => OperandFormat::ThreeReg,
        0xB0 => OperandFormat::ThreeReg,
        0xB1 => OperandFormat::ThreeReg,
        0xB2 => OperandFormat::ThreeReg,
        0xB3 => OperandFormat::ThreeReg,
        0xB4 => OperandFormat::ThreeReg,
        0xB5 => OperandFormat::ThreeReg,
        0xB6 => OperandFormat::ThreeReg,
        0xB7 => OperandFormat::ThreeReg,
        0xB8 => OperandFormat::ThreeReg,
        0xB9 => OperandFormat::ThreeReg,
        0xBA => OperandFormat::ThreeReg,
        0xBB => OperandFormat::ThreeReg,
        0xBC => OperandFormat::ThreeReg,
        0xBD => OperandFormat::ThreeReg,
        0xBE => OperandFormat::PushJ,
        0xBF => OperandFormat::PushJ,
        0xC0 => OperandFormat::ThreeReg,
        0xC1 => OperandFormat::ThreeReg,
        0xC2 => OperandFormat::ThreeReg,
        0xC3 => OperandFormat::ThreeReg,
        0xC4 => OperandFormat::ThreeReg,
        0xC5 => OperandFormat::ThreeReg,
        0xC6 => OperandFormat::ThreeReg,
        0xC7 => OperandFormat::ThreeReg,
        0xC8 => OperandFormat::ThreeReg,
        0xC9 => OperandFormat::ThreeReg,
        0xCA => OperandFormat::ThreeReg,
        0xCB => OperandFormat::ThreeReg,
        0xCC => OperandFormat::ThreeReg,
        0xCD => OperandFormat::ThreeReg,
        0xCE => OperandFormat::ThreeReg,
        0xCF => OperandFormat::ThreeReg,
        0xD0 => OperandFormat::ThreeReg,
        0xD1 => OperandFormat::ThreeReg,
        0xD2 => OperandFormat::ThreeReg,
        0xD3 => OperandFormat::ThreeReg,
        0xD4 => OperandFormat::ThreeReg,
        0xD5 => OperandFormat::ThreeReg,
        0xD6 => OperandFormat::ThreeReg,
        0xD7 => OperandFormat::ThreeReg,
        0xD8 => OperandFormat::ThreeReg,
        0xD9 => OperandFormat::ThreeReg,
        0xDA => OperandFormat::ThreeReg,
        0xDB => OperandFormat::ThreeReg,
        0xDC => OperandFormat::ThreeReg,
        0xDD => OperandFormat::ThreeReg,
        0xDE => OperandFormat::ThreeReg,
        0xDF => OperandFormat::ThreeReg,
        0xE0 => OperandFormat::RegImm16,
        0xE1 => OperandFormat::RegImm16,
        0xE2 => OperandFormat::RegImm16,
        0xE3 => OperandFormat::RegImm16,
        0xE4 => OperandFormat::RegImm16,
        0xE5 => OperandFormat::RegImm16,
        0xE6 => OperandFormat::RegImm16,
        0xE7 => OperandFormat::RegImm16,
        0xE8 => OperandFormat::RegImm16,
        0xE9 => OperandFormat::RegImm16,
        0xEA => OperandFormat::RegImm16,
        0xEB => OperandFormat::RegImm16,
        0xEC => OperandFormat::RegImm16,
        0xED => OperandFormat::RegImm16,
        0xEE => OperandFormat::RegImm16,
        0xEF => OperandFormat::RegImm16,
        0xF0 => OperandFormat::Jump,
        0xF1 => OperandFormat::Jump,
        0xF2 => OperandFormat::PushJ,
        0xF3 => OperandFormat::PushJ,
        0xF4 => OperandFormat::Branch,
        0xF5 => OperandFormat::Branch,
        0xF6 => OperandFormat::Put,
        0xF7 => OperandFormat::Put,
        0xF8 => OperandFormat::Pop,
        0xF9 => OperandFormat::Special,
        0xFA => OperandFormat::Special,
        0xFB => OperandFormat::Special,
        0xFC => OperandFormat::Special,
        0xFD => OperandFormat::Special,
        0xFE => OperandFormat::Get,
        0xFF => OperandFormat::Trap,
    }
}

/// The operand format of an opcode.
pub fn format(opcode: u8) -> (f: OperandFormat)
    ensures
        f == opcode_format(opcode),
{
    match opcode {
        0x00 => OperandFormat::Trap,
        0x01 => OperandFormat::ThreeReg,
        0x02 => OperandFormat::ThreeReg,
        0x03 => OperandFormat::ThreeReg,
        0x04 => OperandFormat::ThreeReg,
        0x05 => OperandFormat::ThreeReg,
        0x06 => OperandFormat::ThreeReg,
        0x07 => OperandFormat::ThreeReg,
        0x08 => OperandFormat::ThreeReg,
        0x09 => OperandFormat::ThreeReg,
        0x0A => OperandFormat::ThreeReg,
        0x0B => OperandFormat::ThreeReg,
        0x0C => OperandFormat::ThreeReg,
        0x0D => OperandFormat::ThreeReg,
        0x0E => OperandFormat::ThreeReg,
        0x0F => OperandFormat::ThreeReg,
        0x10 => OperandFormat::ThreeReg,
        0x11 => OperandFormat::ThreeReg,
        0x12 => OperandFormat::ThreeReg,
        0x13 => OperandFormat::ThreeReg,
        0x14 => OperandFormat::ThreeReg,
        0x15 => OperandFormat::ThreeReg,
        0x16 => OperandFormat::ThreeReg,
        0x17 => OperandFormat::ThreeReg,
        0x18 => OperandFormat::ThreeReg,
        0x19 => OperandFormat::ThreeReg,
        0x1A => OperandFormat::ThreeReg,
        0x1B => OperandFormat::ThreeReg,
        0x1C => OperandFormat::ThreeReg,
        0x1D => OperandFormat::ThreeReg,
        0x1E => OperandFormat::ThreeReg,
        0x1F => OperandFormat::ThreeReg,
        0x20 => OperandFormat::ThreeReg,
        0x21 => OperandFormat::ThreeReg,
        0x22 => OperandFormat::ThreeReg,
        0x23 => OperandFormat::ThreeReg,
        0x24 => OperandFormat::ThreeReg,
        0x25 => OperandFormat::ThreeReg,
        0x26 => OperandFormat::ThreeReg,
        0x27 => OperandFormat::ThreeReg,
        0x28 => OperandFormat::ThreeReg,
        0x29 => OperandFormat::ThreeReg,
        0x2A => OperandFormat::ThreeReg,
        0x2B => OperandFormat::ThreeReg,
        0x2C => OperandFormat::ThreeReg,
        0x2D => OperandFormat::ThreeReg,
        0x2E => OperandFormat::ThreeReg,
        0x2F => OperandFormat::ThreeReg,
        0x30 => OperandFormat::ThreeReg,
        0x31 => OperandFormat::ThreeReg,
        0x32 => OperandFormat::ThreeReg,
        0x33 => OperandFormat::ThreeReg,
        0x34 => OperandFormat::NegStyle,
        0x35 => OperandFormat::NegStyle,
        0x36 => OperandFormat::NegStyle,
        0x37 => OperandFormat::NegStyle,
        0x38 => OperandFormat::ThreeReg,
        0x39 => OperandFormat::ThreeReg,
        0x3A => OperandFormat::ThreeReg,
        0x3B => OperandFormat::ThreeReg,
        0x3C => OperandFormat::ThreeReg,
        0x3D => OperandFormat::ThreeReg,
        0x3E => OperandFormat::ThreeReg,
        0x3F => OperandFormat::ThreeReg,
        0x40 => OperandFormat::Branch,
        0x41 => OperandFormat::Branch,
        0x42 => OperandFormat::Branch,
        0x43 => OperandFormat::Branch,
        0x44 => OperandFormat::Branch,
        0x45 => OperandFormat::Branch,
        0x46 => OperandFormat::Branch,
        0x47 => OperandFormat::Branch,
        0x48 => OperandFormat::Branch,
        0x49 => OperandFormat::Branch,
        0x4A => OperandFormat::Branch,
        0x4B => OperandFormat::Branch,
        0x4C => OperandFormat::Branch,
        0x4D => OperandFormat::Branch,
        0x4E => OperandFormat::Branch,
        0x4F => OperandFormat::Branch,
        0x50 => OperandFormat::Branch,
        0x51 => OperandFormat::Branch,
        0x52 => OperandFormat::Branch,
        0x53 => OperandFormat::Branch,
        0x54 => OperandFormat::Branch,
        0x55 => OperandFormat::Branch,
        0x56 => OperandFormat::Branch,
        0x57 => OperandFormat::Branch,
        0x58 => OperandFormat::Branch,
        0x59 => OperandFormat::Branch,
        0x5A => OperandFormat::Branch,
        0x5B => OperandFormat::Branch,
        0x5C => OperandFormat::Branch,
        0x5D => OperandFormat::Branch,
        0x5E => OperandFormat::Branch,
        0x5F => OperandFormat::Branch,
        0x60 => OperandFormat::ThreeReg,
        0x61 => OperandFormat::ThreeReg,
        0x62 => OperandFormat::ThreeReg,
        0x63 => OperandFormat::ThreeReg,
        0x64 => OperandFormat::ThreeReg,
        0x65 => OperandFormat::ThreeReg,
        0x66 => OperandFormat::ThreeReg,
        0x67 => OperandFormat::ThreeReg,
        0x68 => OperandFormat::ThreeReg,
        0x69 => OperandFormat::ThreeReg,
        0x6A => OperandFormat::ThreeReg,
        0x6B => OperandFormat::ThreeReg,
        0x6C => OperandFormat::ThreeReg,
        0x6D => OperandFormat::ThreeReg,
        0x6E => OperandFormat::ThreeReg,
        0x6F => OperandFormat::ThreeReg,
        0x70 => OperandFormat::ThreeReg,
        0x71 => OperandFormat::ThreeReg,
        0x72 => OperandFormat::ThreeReg,
        0x73 => OperandFormat::ThreeReg,
        0x74 => OperandFormat::ThreeReg,
        0x75 => OperandFormat::ThreeReg,
        0x76 => OperandFormat::ThreeReg,
        0x77 => OperandFormat::ThreeReg,
        0x78 => OperandFormat::ThreeReg,
        0x79 => OperandFormat::ThreeReg,
        0x7A => OperandFormat::ThreeReg,
        0x7B => OperandFormat::ThreeReg,
        0x7C => OperandFormat::ThreeReg,
        0x7D => OperandFormat::ThreeReg,
        0x7E => OperandFormat::ThreeReg,
        0x7F => OperandFormat::ThreeReg,
        0x80 => OperandFormat::ThreeReg,
        0x81 => OperandFormat::ThreeReg,
        0x82 => OperandFormat::ThreeReg,
        0x83 => OperandFormat::ThreeReg,
        0x84 => OperandFormat::ThreeReg,
        0x85 => OperandFormat::ThreeReg,
        0x86 => OperandFormat::ThreeReg,
        0x87 => OperandFormat::ThreeReg,
        0x88 => OperandFormat::ThreeReg,
        0x89 => OperandFormat::ThreeReg,
        0x8A => OperandFormat::ThreeReg,
        0x8B => OperandFormat::ThreeReg,
        0x8C => OperandFormat::ThreeReg,
        0x8D => OperandFormat::ThreeReg,
        0x8E => OperandFormat::ThreeReg,
        0x8F => OperandFormat::ThreeReg,
        0x90 => OperandFormat::ThreeReg,
        0x91 => OperandFormat::ThreeReg,
        0x92 => OperandFormat::ThreeReg,
        0x93 => OperandFormat::ThreeReg,
        0x94 => OperandFormat::ThreeReg,
        0x95 => OperandFormat::ThreeReg,
        0x96 => OperandFormat::ThreeReg,
        0x97 => OperandFormat::ThreeReg,
        0x98 => OperandFormat::ThreeReg,
        0x99 => OperandFormat::ThreeReg,
        0x9A => OperandFormat::ThreeReg,
        0x9B => OperandFormat::ThreeReg,
        0x9C => OperandFormat::ThreeReg,
        0x9D => OperandFormat::ThreeReg,
        0x9E => OperandFormat::ThreeReg,
        0x9F => OperandFormat::ThreeReg,
        0xA0 => OperandFormat::ThreeReg,
        0xA1 => OperandFormat::ThreeReg,
        0xA2 => OperandFormat::ThreeReg,
        0xA3 => OperandFormat::ThreeReg,
        0xA4 => OperandFormat::ThreeReg,
        0xA5 => OperandFormat::ThreeReg,
        0xA6 => OperandFormat::ThreeReg,
        0xA7 => OperandFormat::ThreeReg,
        0xA8 => OperandFormat::ThreeReg,
        0xA9 => OperandFormat::ThreeReg,
        0xAA => OperandFormat::ThreeReg,
        0xAB => OperandFormat::ThreeReg,
        0xAC => OperandFormat::ThreeReg,
        0xAD => OperandFormat::ThreeReg,
        0xAE => OperandFormat::ThreeReg,
        0xAF => OperandFormat::ThreeReg,
        0xB0 => OperandFormat::ThreeReg,
        0xB1 => OperandFormat::ThreeReg,
        0xB2 => OperandFormat::ThreeReg,
        0xB3 => OperandFormat::ThreeReg,
        0xB4 => OperandFormat::ThreeReg,
        0xB5 => OperandFormat::ThreeReg,
        0xB6 => OperandFormat::ThreeReg,
        0xB7 => OperandFormat::ThreeReg,
        0xB8 => OperandFormat::ThreeReg,
        0xB9 => OperandFormat::ThreeReg,
        0xBA => OperandFormat::ThreeReg,
        0xBB => OperandFormat::ThreeReg,
        0xBC => OperandFormat::ThreeReg,
        0xBD => OperandFormat::ThreeReg,
        0xBE => OperandFormat::PushJ,
        0xBF => OperandFormat::PushJ,
        0xC0 => OperandFormat::ThreeReg,
        0xC1 => OperandFormat::ThreeReg,
        0xC2 => OperandFormat::ThreeReg,
        0xC3 => OperandFormat::ThreeReg,
        0xC4 => OperandFormat::ThreeReg,
        0xC5 => OperandFormat::ThreeReg,
        0xC6 => OperandFormat::ThreeReg,
        0xC7 => OperandFormat::ThreeReg,
        0xC8 => OperandFormat::ThreeReg,
        0xC9 => OperandFormat::ThreeReg,
        0xCA => OperandFormat::ThreeReg,
        0xCB => OperandFormat::ThreeReg,
        0xCC => OperandFormat::ThreeReg,
        0xCD => OperandFormat::ThreeReg,
        0xCE => OperandFormat::ThreeReg,
        0xCF => OperandFormat::ThreeReg,
        0xD0 => OperandFormat::ThreeReg,
        0xD1 => OperandFormat::ThreeReg,
        0xD2 => OperandFormat::ThreeReg,
        0xD3 => OperandFormat::ThreeReg,
        0xD4 => OperandFormat::ThreeReg,
        0xD5 => OperandFormat::ThreeReg,
        0xD6 => OperandFormat::ThreeReg,
        0xD7 => OperandFormat::ThreeReg,
        0xD8 => OperandFormat::ThreeReg,
        0xD9 => OperandFormat::ThreeReg,
        0xDA => OperandFormat::ThreeReg,
        0xDB => OperandFormat::ThreeReg,
        0xDC => OperandFormat::ThreeReg,
        0xDD => OperandFormat::ThreeReg,
        0xDE => OperandFormat::ThreeReg,
        0xDF => OperandFormat::ThreeReg,
        0xE0 => OperandFormat::RegImm16,
        0xE1 => OperandFormat::RegImm16,
        0xE2 => OperandFormat::RegImm16,
        0xE3 => OperandFormat::RegImm16,
        0xE4 => OperandFormat::RegImm16,
        0xE5 => OperandFormat::RegImm16,
        0xE6 => OperandFormat::RegImm16,
        0xE7 => OperandFormat::RegImm16,
        0xE8 => OperandFormat::RegImm16,
        0xE9 => OperandFormat::RegImm16,
        0xEA => OperandFormat::RegImm16,
        0xEB => OperandFormat::RegImm16,
        0xEC => OperandFormat::RegImm16,
        0xED => OperandFormat::RegImm16,
        0xEE => OperandFormat::RegImm16,
        0xEF => OperandFormat::RegImm16,
        0xF0 => OperandFormat::Jump,
        0xF1 => OperandFormat::Jump,
        0xF2 => OperandFormat::PushJ,
        0xF3 => OperandFormat::PushJ,
        0xF4 => OperandFormat::Branch,
        0xF5 => OperandFormat::Branch,
        0xF6 => OperandFormat::Put,
        0xF7 => OperandFormat::Put,
        0xF8 => OperandFormat::Pop,
        0xF9 => OperandFormat::Special,
        0xFA => OperandFormat::Special,
        0xFB => OperandFormat::Special,
        0xFC => OperandFormat::Special,
        0xFD => OperandFormat::Special,
        0xFE => OperandFormat::Get,
        0xFF => OperandFormat::Trap,
    }
}

/// The estimated execution cost of an opcode.
pub fn timing(opcode: u8) -> (t: Timing)
    ensures
        t == opcode_timing(opcode),
{
    match opcode {
        0x00 => Timing { v: 5, mu: 0 },
        0x01 => Timing { v: 1, mu: 0 },
        0x02 => Timing { v: 1, mu: 0 },
        0x03 => Timing { v: 1, mu: 0 },
        0x04 => Timing { v: 4, mu: 0 },
        0x05 => Timing { v: 4, mu: 0 },
        0x06 => Timing { v: 4, mu: 0 },
        0x07 => Timing { v: 4, mu: 0 },
        0x08 => Timing { v: 4, mu: 0 },
        0x09 => Timing { v: 4, mu: 0 },
        0x0A => Timing { v: 4, mu: 0 },
        0x0B => Timing { v: 4, mu: 0 },
        0x0C => Timing { v: 4, mu: 0 },
        0x0D => Timing { v: 4, mu: 0 },
        0x0E => Timing { v: 4, mu: 0 },
        0x0F => Timing { v: 4, mu: 0 },
        0x10 => Timing { v: 4, mu: 0 },
        0x11 => Timing { v: 4, mu: 0 },
        0x12 => Timing { v: 1, mu: 0 },
        0x13 => Timing { v: 4, mu: 0 },
        0x14 => Timing { v: 40, mu: 0 },
        0x15 => Timing { v: 40, mu: 0 },
        0x16 => Timing { v: 4, mu: 0 },
        0x17 => Timing { v: 4, mu: 0 },
        0x18 => Timing { v: 10, mu: 0 },
        0x19 => Timing { v: 10, mu: 0 },
        0x1A => Timing { v: 10, mu: 0 },
        0x1B => Timing { v: 10, mu: 0 },
        0x1C => Timing { v: 60, mu: 0 },
        0x1D => Timing { v: 60, mu: 0 },
        0x1E => Timing { v: 60, mu: 0 },
        0x1F => Timing { v: 60, mu: 0 },
        0x20 => Timing { v: 1, mu: 0 },
        0x21 => Timing { v: 1, mu: 0 },
        0x22 => Timing { v: 1, mu: 0 },
        0x23 => Timing { v: 1, mu: 0 },
        0x24 => Timing { v: 1, mu: 0 },
        0x25 => Timing { v: 1, mu: 0 },
        0x26 => Timing { v: 1, mu: 0 },
        0x27 => Timing { v: 1, mu: 0 },
        0x28 => Timing { v: 1, mu: 0 },
        0x29 => Timing { v: 1, mu: 0 },
        0x2A => Timing { v: 1, mu: 0 },
        0x2B => Timing { v: 1, mu: 0 },
        0x2C => Timing { v: 1, mu: 0 },
        0x2D => Timing { v: 1, mu: 0 },
        0x2E => Timing { v: 1, mu: 0 },
        0x2F => Timing { v: 1, mu: 0 },
        0x30 => Timing { v: 1, mu: 0 },
        0x31 => Timing { v: 1, mu: 0 },
        0x32 => Timing { v: 1, mu: 0 },
        0x33 => Timing { v: 1, mu: 0 },
        0x34 => Timing { v: 1, mu: 0 },
        0x35 => Timing { v: 1, mu: 0 },
        0x36 => Timing { v: 1, mu: 0 },
        0x37 => Timing { v: 1, mu: 0 },
        0x38 => Timing { v: 1, mu: 0 },
        0x39 => Timing { v: 1, mu: 0 },
        0x3A => Timing { v: 1, mu: 0 },
        0x3B => Timing { v: 1, mu: 0 },
        0x3C => Timing { v: 1, mu: 0 },
        0x3D => Timing { v: 1, mu: 0 },
        0x3E => Timing { v: 1, mu: 0 },
        0x3F => Timing { v: 1, mu: 0 },
        0x40 => Timing { v: 1, mu: 0 },
        0x41 => Timing { v: 1, mu: 0 },
        0x42 => Timing { v: 1, mu: 0 },
        0x43 => Timing { v: 1, mu: 0 },
        0x44 => Timing { v: 1, mu: 0 },
        0x45 => Timing { v: 1, mu: 0 },
        0x46 => Timing { v: 1, mu: 0 },
        0x47 => Timing { v: 1, mu: 0 },
        0x48 => Timing { v: 1, mu: 0 },
        0x49 => Timing { v: 1, mu: 0 },
        0x4A => Timing { v: 1, mu: 0 },
        0x4B => Timing { v: 1, mu: 0 },
        0x4C => Timing { v: 1, mu: 0 },
        0x4D => Timing { v: 1, mu: 0 },
        0x4E => Timing { v: 1, mu: 0 },
        0x4F => Timing { v: 1, mu: 0 },
        0x50 => Timing { v: 3, mu: 0 },
        0x51 => Timing { v: 3, mu: 0 },
        0x52 => Timing { v: 3, mu: 0 },
        0x53 => Timing { v: 3, mu: 0 },
        0x54 => Timing { v: 3, mu: 0 },
        0x55 => Timing { v: 3, mu: 0 },
        0x56 => Timing { v: 3, mu: 0 },
        0x57 => Timing { v: 3, mu: 0 },
        0x58 => Timing { v: 3, mu: 0 },
        0x59 => Timing { v: 3, mu: 0 },
        0x5A => Timing { v: 3, mu: 0 },
        0x5B => Timing { v: 3, mu: 0 },
        0x5C => Timing { v: 3, mu: 0 },
        0x5D => Timing { v: 3, mu: 0 },
        0x5E => Timing { v: 3, mu: 0 },
        0x5F => Timing { v: 3, mu: 0 },
        0x60 => Timing { v: 1, mu: 0 },
        0x61 => Timing { v: 1, mu: 0 },
        0x62 => Timing { v: 1, mu: 0 },
        0x63 => Timing { v: 1, mu: 0 },
        0x64 => Timing { v: 1, mu: 0 },
        0x65 => Timing { v: 1, mu: 0 },
        0x66 => Timing { v: 1, mu: 0 },
        0x67 => Timing { v: 1, mu: 0 },
        0x68 => Timing { v: 1, mu: 0 },
        0x69 => Timing { v: 1, mu: 0 },
        0x6A => Timing { v: 1, mu: 0 },
        0x6B => Timing { v: 1, mu: 0 },
        0x6C => Timing { v: 1, mu: 0 },
        0x6D => Timing { v: 1, mu: 0 },
        0x6E => Timing { v: 1, mu: 0 },
        0x6F => Timing { v: 1, mu: 0 },
        0x70 => Timing { v: 1, mu: 0 },
        0x71 => Timing { v: 1, mu: 0 },
        0x72 => Timing { v: 1, mu: 0 },
        0x73 => Timing { v: 1, mu: 0 },
        0x74 => Timing { v: 1, mu: 0 },
        0x75 => Timing { v: 1, mu: 0 },
        0x76 => Timing { v: 1, mu: 0 },
        0x77 => Timing { v: 1, mu: 0 },
        0x78 => Timing { v: 1, mu: 0 },
        0x79 => Timing { v: 1, mu: 0 },
        0x7A => Timing { v: 1, mu: 0 },
        0x7B => Timing { v: 1, mu: 0 },
        0x7C => Timing { v: 1, mu: 0 },
        0x7D => Timing { v: 1, mu: 0 },
        0x7E => Timing { v: 1, mu: 0 },
        0x7F => Timing { v: 1, mu: 0 },
        0x80 => Timing { v: 1, mu: 1 },
        0x81 => Timing { v: 1, mu: 1 },
        0x82 => Timing { v: 1, mu: 1 },
        0x83 => Timing { v: 1, mu: 1 },
        0x84 => Timing { v: 1, mu: 1 },
        0x85 => Timing { v: 1, mu: 1 },
        0x86 => Timing { v: 1, mu: 1 },
        0x87 => Timing { v: 1, mu: 1 },
        0x88 => Timing { v: 1, mu: 1 },
        0x89 => Timing { v: 1, mu: 1 },
        0x8A => Timing { v: 1, mu: 1 },
        0x8B => Timing { v: 1, mu: 1 },
        0x8C => Timing { v: 1, mu: 1 },
        0x8D => Timing { v: 1, mu: 1 },
        0x8E => Timing { v: 1, mu: 1 },
        0x8F => Timing { v: 1, mu: 1 },
        0x90 => Timing { v: 1, mu: 1 },
        0x91 => Timing { v: 1, mu: 1 },
        0x92 => Timing { v: 1, mu: 1 },
        0x93 => Timing { v: 1, mu: 1 },
        0x94 => Timing { v: 2, mu: 2 },
        0x95 => Timing { v: 2, mu: 2 },
        0x96 => Timing { v: 1, mu: 1 },
        0x97 => Timing { v: 1, mu: 1 },
        0x98 => Timing { v: 1, mu: 0 },
        0x99 => Timing { v: 1, mu: 0 },
        0x9A => Timing { v: 1, mu: 0 },
        0x9B => Timing { v: 1, mu: 0 },
        0x9C => Timing { v: 1, mu: 0 },
        0x9D => Timing { v: 1, mu: 0 },
        0x9E => Timing { v: 3, mu: 0 },
        0x9F => Timing { v: 3, mu: 0 },
        0xA0 => Timing { v: 1, mu: 1 },
        0xA1 => Timing { v: 1, mu: 1 },
        0xA2 => Timing { v: 1, mu: 1 },
        0xA3 => Timing { v: 1, mu: 1 },
        0xA4 => Timing { v: 1, mu: 1 },
        0xA5 => Timing { v: 1, mu: 1 },
        0xA6 => Timing { v: 1, mu: 1 },
        0xA7 => Timing { v: 1, mu: 1 },
        0xA8 => Timing { v: 1, mu: 1 },
        0xA9 => Timing { v: 1, mu: 1 },
        0xAA => Timing { v: 1, mu: 1 },
        0xAB => Timing { v: 1, mu: 1 },
        0xAC => Timing { v: 1, mu: 1 },
        0xAD => Timing { v: 1, mu: 1 },
        0xAE => Timing { v: 1, mu: 1 },
        0xAF => Timing { v: 1, mu: 1 },
        0xB0 => Timing { v: 1, mu: 1 },
        0xB1 => Timing { v: 1, mu: 1 },
        0xB2 => Timing { v: 1, mu: 1 },
        0xB3 => Timing { v: 1, mu: 1 },
        0xB4 => Timing { v: 1, mu: 1 },
        0xB5 => Timing { v: 1, mu: 1 },
        0xB6 => Timing { v: 1, mu: 1 },
        0xB7 => Timing { v: 1, mu: 1 },
        0xB8 => Timing { v: 1, mu: 0 },
        0xB9 => Timing { v: 1, mu: 0 },
        0xBA => Timing { v: 1, mu: 0 },
        0xBB => Timing { v: 1, mu: 0 },
        0xBC => Timing { v: 1, mu: 0 },
        0xBD => Timing { v: 1, mu: 0 },
        0xBE => Timing { v: 3, mu: 0 },
        0xBF => Timing { v: 3, mu: 0 },
        0xC0 => Timing { v: 1, mu: 0 },
        0xC1 => Timing { v: 1, mu: 0 },
        0xC2 => Timing { v: 1, mu: 0 },
        0xC3 => Timing { v: 1, mu: 0 },
        0xC4 => Timing { v: 1, mu: 0 },
        0xC5 => Timing { v: 1, mu: 0 },
        0xC6 => Timing { v: 1, mu: 0 },
        0xC7 => Timing { v: 1, mu: 0 },
        0xC8 => Timing { v: 1, mu: 0 },
        0xC9 => Timing { v: 1, mu: 0 },
        0xCA => Timing { v: 1, mu: 0 },
        0xCB => Timing { v: 1, mu: 0 },
        0xCC => Timing { v: 1, mu: 0 },
        0xCD => Timing { v: 1, mu: 0 },
        0xCE => Timing { v: 1, mu: 0 },
        0xCF => Timing { v: 1, mu: 0 },
        0xD0 => Timing { v: 1, mu: 0 },
        0xD1 => Timing { v: 1, mu: 0 },
        0xD2 => Timing { v: 1, mu: 0 },
        0xD3 => Timing { v: 1, mu: 0 },
        0xD4 => Timing { v: 1, mu: 0 },
        0xD5 => Timing { v: 1, mu: 0 },
        0xD6 => Timing { v: 1, mu: 0 },
        0xD7 => Timing { v: 1, mu: 0 },
        0xD8 => Timing { v: 1, mu: 0 },
        0xD9 => Timing { v: 1, mu: 0 },
        0xDA => Timing { v: 1, mu: 0 },
        0xDB => Timing { v: 1, mu: 0 },
        0xDC => Timing { v: 1, mu: 0 },
        0xDD => Timing { v: 1, mu: 0 },
        0xDE => Timing { v: 1, mu: 0 },
        0xDF => Timing { v: 1, mu: 0 },
        0xE0 => Timing { v: 1, mu: 0 },
        0xE1 => Timing { v: 1, mu: 0 },
        0xE2 => Timing { v: 1, mu: 0 },
        0xE3 => Timing { v: 1, mu: 0 },
        0xE4 => Timing { v: 1, mu: 0 },
        0xE5 => Timing { v: 1, mu: 0 },
        0xE6 => Timing { v: 1, mu: 0 },
        0xE7 => Timing { v: 1, mu: 0 },
        0xE8 => Timing { v: 1, mu: 0 },
        0xE9 => Timing { v: 1, mu: 0 },
        0xEA => Timing { v: 1, mu: 0 },
        0xEB => Timing { v: 1, mu: 0 },
        0xEC => Timing { v: 1, mu: 0 },
        0xED => Timing { v: 1, mu: 0 },
        0xEE => Timing { v: 1, mu: 0 },
        0xEF => Timing { v: 1, mu: 0 },
        0xF0 => Timing { v: 1, mu: 0 },
        0xF1 => Timing { v: 1, mu: 0 },
        0xF2 => Timing { v: 1, mu: 0 },
        0xF3 => Timing { v: 1, mu: 0 },
        0xF4 => Timing { v: 1, mu: 0 },
        0xF5 => Timing { v: 1, mu: 0 },
        0xF6 => Timing { v: 1, mu: 0 },
        0xF7 => Timing { v: 1, mu: 0 },
        0xF8 => Timing { v: 3, mu: 0 },
        0xF9 => Timing { v: 5, mu: 0 },
        0xFA => Timing { v: 1, mu: 20 },
        0xFB => Timing { v: 1, mu: 20 },
        0xFC => Timing { v: 1, mu: 0 },
        0xFD => Timing { v: 1, mu: 0 },
        0xFE => Timing { v: 1, mu: 0 },
        0xFF => Timing { v: 5, mu: 0 },
    }
}

/// The mnemonic of an opcode.
pub fn name(opcode: u8) -> (n: &'static str)
    ensures
        n == opcode_name(opcode),
{
    match opcode {
        0x00 => "TRAP",
        0x01 => "FCMP",
        0x02 => "FUN",
        0x03 => "FEQL",
        0x04 => "FADD",
        0x05 => "FIX",
        0x06 => "FSUB",
        0x07 => "FIXU",
        0x08 => "FLOT",
        0x09 => "FLOTI",
        0x0A => "FLOTU",
        0x0B => "FLOTUI",
        0x0C => "SFLOT",
        0x0D => "SFLOTI",
        0x0E => "SFLOTU",
        0x0F => "SFLOTUI",
        0x10 => "FMUL",
        0x11 => "FCMPE",
        0x12 => "FUNE",
        0x13 => "FEQLE",
        0x14 => "FDIV",
        0x15 => "FSQRT",
        0x16 => "FREM",
        0x17 => "FINT",
        0x18 => "MUL",
        0x19 => "MULI",
        0x1A => "MULU",
        0x1B => "MULUI",
        0x1C => "DIV",
        0x1D => "DIVI",
        0x1E => "DIVU",
        0x1F => "DIVUI",
        0x20 => "ADD",
        0x21 => "ADDI",
        0x22 => "ADDU",
        0x23 => "ADDUI",
        0x24 => "SUB",
        0x25 => "SUBI",
        0x26 => "SUBU",
        0x27 => "SUBUI",
        0x28 => "2ADDU",
        0x29 => "2ADDUI",
        0x2A => "4ADDU",
        0x2B => "4ADDUI",
        0x2C => "8ADDU",
        0x2D => "8ADDUI",
        0x2E => "16ADDU",
        0x2F => "16ADDUI",
        0x30 => "CMP",
        0x31 => "CMPI",
        0x32 => "CMPU",
        0x33 => "CMPUI",
        0x34 => "NEG",
        0x35 => "NEGI",
        0x36 => "NEGU",
        0x37 => "NEGUI",
        0x38 => "SL",
        0x39 => "SLI",
        0x3A => "SLU",
        0x3B => "SLUI",
        0x3C => "SR",
        0x3D => "SRI",
        0x3E => "SRU",
        0x3F => "SRUI",
        0x40 => "BN",
        0x41 => "BNB",
        0x42 => "BZ",
        0x43 => "BZB",
        0x44 => "BP",
        0x45 => "BPB",
        0x46 => "BOD",
        0x47 => "BODB",
        0x48 => "BNN",
        0x49 => "BNNB",
        0x4A => "BNZ",
        0x4B => "BNZB",
        0x4C => "BNP",
        0x4D => "BNPB",
        0x4E => "BEV",
        0x4F => "BEVB",
        0x50 => "PBN",
        0x51 => "PBNB",
        0x52 => "PBZ",
        0x53 => "PBZB",
        0x54 => "PBP",
        0x55 => "PBPB",
        0x56 => "PBOD",
        0x57 => "PBODB",
        0x58 => "PBNN",
        0x59 => "PBNNB",
        0x5A => "PBNZ",
        0x5B => "PBNZB",
        0x5C => "PBNP",
        0x5D => "PBNPB",
        0x5E => "PBEV",
        0x5F => "PBEVB",
        0x60 => "CSN",
        0x61 => "CSNI",
        0x62 => "CSZ",
        0x63 => "CSZI",
        0x64 => "CSP",
        0x65 => "CSPI",
        0x66 => "CSOD",
        0x67 => "CSODI",
        0x68 => "CSNN",
        0x69 => "CSNNI",
        0x6A => "CSNZ",
        0x6B => "CSNZI",
        0x6C => "CSNP",
        0x6D => "CSNPI",
        0x6E => "CSEV",
        0x6F => "CSEVI",
        0x70 => "ZSN",
        0x71 => "ZSNI",
        0x72 => "ZSZ",
        0x73 => "ZSZI",
        0x74 => "ZSP",
        0x75 => "ZSPI",
        0x76 => "ZSOD",
        0x77 => "ZSODI",
        0x78 => "ZSNN",
        0x79 => "ZSNNI",
        0x7A => "ZSNZ",
        0x7B => "ZSNZI",
        0x7C => "ZSNP",
        0x7D => "ZSNPI",
        0x7E => "ZSEV",
        0x7F => "ZSEVI",
        0x80 => "LDB",
        0x81 => "LDBI",
        0x82 => "LDBU",
        0x83 => "LDBUI",
        0x84 => "LDW",
        0x85 => "LDWI",
        0x86 => "LDWU",
        0x87 => "LDWUI",
        0x88 => "LDT",
        0x89 => "LDTI",
        0x8A => "LDTU",
        0x8B => "LDTUI",
        0x8C => "LDO",
        0x8D => "LDOI",
        0x8E => "LDOU",
        0x8F => "LDOUI",
        0x90 => "LDSF",
        0x91 => "LDSFI",
        0x92 => "LDHT",
        0x93 => "LDHTI",
        0x94 => "CSWAP",
        0x95 => "CSWAPI",
        0x96 => "LDUNC",
        0x97 => "LDUNCI",
        0x98 => "LDVTS",
        0x99 => "LDVTSI",
        0x9A => "PRELD",
        0x9B => "PRELDI",
        0x9C => "PREGO",
        0x9D => "PREGOI",
        0x9E => "GO",
        0x9F => "GOI",
        0xA0 => "STB",
        0xA1 => "STBI",
        0xA2 => "STBU",
        0xA3 => "STBUI",
        0xA4 => "STW",
        0xA5 => "STWI",
        0xA6 => "STWU",
        0xA7 => "STWUI",
        0xA8 => "STT",
        0xA9 => "STTI",
        0xAA => "STTU",
        0xAB => "STTUI",
        0xAC => "STO",
        0xAD => "STOI",
        0xAE => "STOU",
        0xAF => "STOUI",
        0xB0 => "STSF",
        0xB1 => "STSFI",
        0xB2 => "STHT",
        0xB3 => "STHTI",
        0xB4 => "STCO",
        0xB5 => "STCOI",
        0xB6 => "STUNC",
        0xB7 => "STUNCI",
        0xB8 => "SYNCD",
        0xB9 => "SYNCDI",
        0xBA => "PREST",
        0xBB => "PRESTI",
        0xBC => "SYNCID",
        0xBD => "SYNCIDI",
        0xBE => "PUSHGO",
        0xBF => "PUSHGOI",
        0xC0 => "OR",
        0xC1 => "ORI",
        0xC2 => "ORN",
        0xC3 => "ORNI",
        0xC4 => "NOR",
        0xC5 => "NORI",
        0xC6 => "XOR",
        0xC7 => "XORI",
        0xC8 => "AND",
        0xC9 => "ANDI",
        0xCA => "ANDN",
        0xCB => "ANDNI",
        0xCC => "NAND",
        0xCD => "NANDI",
        0xCE => "NXOR",
        0xCF => "NXORI",
        0xD0 => "BDIF",
        0xD1 => "BDIFI",
        0xD2 => "WDIF",
        0xD3 => "WDIFI",
        0xD4 => "TDIF",
        0xD5 => "TDIFI",
        0xD6 => "ODIF",
        0xD7 => "ODIFI",
        0xD8 => "MUX",
        0xD9 => "MUXI",
        0xDA => "SADD",
        0xDB => "SADDI",
        0xDC => "MOR",
        0xDD => "MORI",
        0xDE => "MXOR",
        0xDF => "MXORI",
        0xE0 => "SETH",
        0xE1 => "SETMH",
        0xE2 => "SETML",
        0xE3 => "SETL",
        0xE4 => "INCH",
        0xE5 => "INCMH",
        0xE6 => "INCML",
        0xE7 => "INCL",
        0xE8 => "ORH",
        0xE9 => "ORMH",
        0xEA => "ORML",
        0xEB => "ORL",
        0xEC => "ANDNH",
        0xED => "ANDNMH",
        0xEE => "ANDNML",
        0xEF => "ANDNL",
        0xF0 => "JMP",
        0xF1 => "JMPB",
        0xF2 => "PUSHJ",
        0xF3 => "PUSHJB",
        0xF4 => "GETA",
        0xF5 => "GETAB",
        0xF6 => "PUT",
        0xF7 => "PUTI",
        0xF8 => "POP",
        0xF9 => "RESUME",
        0xFA => "SAVE",
        0xFB => "UNSAVE",
        0xFC => "SYNC",
        0xFD => "SWYM",
        0xFE => "GET",
        0xFF => "TRIP",
    }
}

/// The table of names and the table of opcode numbers agree: the opcode
/// that each constant of [`crate::op`] numbers bears that constant's name.
pub proof fn lemma_names_match_numbers()
    ensures
        opcode_name(crate::op::TRAP)@ == "TRAP"@,
        opcode_name(crate::op::FCMP)@ == "FCMP"@,
        opcode_name(crate::op::FUN)@ == "FUN"@,
        opcode_name(crate::op::FEQL)@ == "FEQL"@,
        opcode_name(crate::op::FADD)@ == "FADD"@,
        opcode_name(crate::op::FIX)@ == "FIX"@,
        opcode_name(crate::op::FSUB)@ == "FSUB"@,
        opcode_name(crate::op::FIXU)@ == "FIXU"@,
        opcode_name(crate::op::FLOT)@ == "FLOT"@,
        opcode_name(crate::op::FLOTI)@ == "FLOTI"@,
        opcode_name(crate::op::FLOTU)@ == "FLOTU"@,
        opcode_name(crate::op::FLOTUI)@ == "FLOTUI"@,
        opcode_name(crate::op::SFLOT)@ == "SFLOT"@,
        opcode_name(crate::op::SFLOTI)@ == "SFLOTI"@,
        opcode_name(crate::op::SFLOTU)@ == "SFLOTU"@,
        opcode_name(crate::op::SFLOTUI)@ == "SFLOTUI"@,
        opcode_name(crate::op::FMUL)@ == "FMUL"@,
        opcode_name(crate::op::FCMPE)@ == "FCMPE"@,
        opcode_name(crate::op::FUNE)@ == "FUNE"@,
        opcode_name(crate::op::FEQLE)@ == "FEQLE"@,
        opcode_name(crate::op::FDIV)@ == "FDIV"@,
        opcode_name(crate::op::FSQRT)@ == "FSQRT"@,
        opcode_name(crate::op::FREM)@ == "FREM"@,
        opcode_name(crate::op::FINT)@ == "FINT"@,
        opcode_name(crate::op::MUL)@ == "MUL"@,
        opcode_name(crate::op::MULI)@ == "MULI"@,
        opcode_name(crate::op::MULU)@ == "MULU"@,
        opcode_name(crate::op::MULUI)@ == "MULUI"@,
        opcode_name(crate::op::DIV)@ == "DIV"@,
        opcode_name(crate::op::DIVI)@ == "DIVI"@,
        opcode_name(crate::op::DIVU)@ == "DIVU"@,
        opcode_name(crate::op::DIVUI)@ == "DIVUI"@,
        opcode_name(crate::op::ADD)@ == "ADD"@,
        opcode_name(crate::op::ADDI)@ == "ADDI"@,
        opcode_name(crate::op::ADDU)@ == "ADDU"@,
        opcode_name(crate::op::ADDUI)@ == "ADDUI"@,
        opcode_name(crate::op::SUB)@ == "SUB"@,
        opcode_name(crate::op::SUBI)@ == "SUBI"@,
        opcode_name(crate::op::SUBU)@ == "SUBU"@,
        opcode_name(crate::op::SUBUI)@ == "SUBUI"@,
        opcode_name(crate::op::_2ADDU)@ == "2ADDU"@,
        opcode_name(crate::op::_2ADDUI)@ == "2ADDUI"@,
        opcode_name(crate::op::_4ADDU)@ == "4ADDU"@,
        opcode_name(crate::op::_4ADDUI)@ == "4ADDUI"@,
        opcode_name(crate::op::_8ADDU)@ == "8ADDU"@,
        opcode_name(crate::op::_8ADDUI)@ == "8ADDUI"@,
        opcode_name(crate::op::_16ADDU)@ == "16ADDU"@,
        opcode_name(crate::op::_16ADDUI)@ == "16ADDUI"@,
        opcode_name(crate::op::CMP)@ == "CMP"@,
        opcode_name(crate::op::CMPI)@ == "CMPI"@,
        opcode_name(crate::op::CMPU)@ == "CMPU"@,
        opcode_name(crate::op::CMPUI)@ == "CMPUI"@,
        opcode_name(crate::op::NEG)@ == "NEG"@,
        opcode_name(crate::op::NEGI)@ == "NEGI"@,
        opcode_name(crate::op::NEGU)@ == "NEGU"@,
        opcode_name(crate::op::NEGUI)@ == "NEGUI"@,
        opcode_name(crate::op::SL)@ == "SL"@,
        opcode_name(crate::op::SLI)@ == "SLI"@,
        opcode_name(crate::op::SLU)@ == "SLU"@,
        opcode_name(crate::op::SLUI)@ == "SLUI"@,
        opcode_name(crate::op::SR)@ == "SR"@,
        opcode_name(crate::op::SRI)@ == "SRI"@,
        opcode_name(crate::op::SRU)@ == "SRU"@,
        opcode_name(crate::op::SRUI)@ == "SRUI"@,
        opcode_name(crate::op::BN)@ == "BN"@,
        opcode_name(crate::op::BNB)@ == "BNB"@,
        opcode_name(crate::op::BZ)@ == "BZ"@,
        opcode_name(crate::op::BZB)@ == "BZB"@,
        opcode_name(crate::op::BP)@ == "BP"@,
        opcode_name(crate::op::BPB)@ == "BPB"@,
        opcode_name(crate::op::BOD)@ == "BOD"@,
        opcode_name(crate::op::BODB)@ == "BODB"@,
        opcode_name(crate::op::BNN)@ == "BNN"@,
        opcode_name(crate::op::BNNB)@ == "BNNB"@,
        opcode_name(crate::op::BNZ)@ == "BNZ"@,
        opcode_name(crate::op::BNZB)@ == "BNZB"@,
        opcode_name(crate::op::BNP)@ == "BNP"@,
        opcode_name(crate::op::BNPB)@ == "BNPB"@,
        opcode_name(crate::op::BEV)@ == "BEV"@,
        opcode_name(crate::op::BEVB)@ == "BEVB"@,
        opcode_name(crate::op::PBN)@ == "PBN"@,
        opcode_name(crate::op::PBNB)@ == "PBNB"@,
        opcode_name(crate::op::PBZ)@ == "PBZ"@,
        opcode_name(crate::op::PBZB)@ == "PBZB"@,
        opcode_name(crate::op::PBP)@ == "PBP"@,
        opcode_name(crate::op::PBPB)@ == "PBPB"@,
        opcode_name(crate::op::PBOD)@ == "PBOD"@,
        opcode_name(crate::op::PBODB)@ == "PBODB"@,
        opcode_name(crate::op::PBNN)@ == "PBNN"@,
        opcode_name(crate::op::PBNNB)@ == "PBNNB"@,
        opcode_name(crate::op::PBNZ)@ == "PBNZ"@,
        opcode_name(crate::op::PBNZB)@ == "PBNZB"@,
        opcode_name(crate::op::PBNP)@ == "PBNP"@,
        opcode_name(crate::op::PBNPB)@ == "PBNPB"@,
        opcode_name(crate::op::PBEV)@ == "PBEV"@,
        opcode_name(crate::op::PBEVB)@ == "PBEVB"@,
        opcode_name(crate::op::CSN)@ == "CSN"@,
        opcode_name(crate::op::CSNI)@ == "CSNI"@,
        opcode_name(crate::op::CSZ)@ == "CSZ"@,
        opcode_name(crate::op::CSZI)@ == "CSZI"@,
        opcode_name(crate::op::CSP)@ == "CSP"@,
        opcode_name(crate::op::CSPI)@ == "CSPI"@,
        opcode_name(crate::op::CSOD)@ == "CSOD"@,
        opcode_name(crate::op::CSODI)@ == "CSODI"@,
        opcode_name(crate::op::CSNN)@ == "CSNN"@,
        opcode_name(crate::op::CSNNI)@ == "CSNNI"@,
        opcode_name(crate::op::CSNZ)@ == "CSNZ"@,
        opcode_name(crate::op::CSNZI)@ == "CSNZI"@,
        opcode_name(crate::op::CSNP)@ == "CSNP"@,
        opcode_name(crate::op::CSNPI)@ == "CSNPI"@,
        opcode_name(crate::op::CSEV)@ == "CSEV"@,
        opcode_name(crate::op::CSEVI)@ == "CSEVI"@,
        opcode_name(crate::op::ZSN)@ == "ZSN"@,
        opcode_name(crate::op::ZSNI)@ == "ZSNI"@,
        opcode_name(crate::op::ZSZ)@ == "ZSZ"@,
        opcode_name(crate::op::ZSZI)@ == "ZSZI"@,
        opcode_name(crate::op::ZSP)@ == "ZSP"@,
        opcode_name(crate::op::ZSPI)@ == "ZSPI"@,
        opcode_name(crate::op::ZSOD)@ == "ZSOD"@,
        opcode_name(crate::op::ZSODI)@ == "ZSODI"@,
        opcode_name(crate::op::ZSNN)@ == "ZSNN"@,
        opcode_name(crate::op::ZSNNI)@ == "ZSNNI"@,
        opcode_name(crate::op::ZSNZ)@ == "ZSNZ"@,
        opcode_name(crate::op::ZSNZI)@ == "ZSNZI"@,
        opcode_name(crate::op::ZSNP)@ == "ZSNP"@,
        opcode_name(crate::op::ZSNPI)@ == "ZSNPI"@,
        opcode_name(crate::op::ZSEV)@ == "ZSEV"@,
        opcode_name(crate::op::ZSEVI)@ == "ZSEVI"@,
        opcode_name(crate::op::LDB)@ == "LDB"@,
        opcode_name(crate::op::LDBI)@ == "LDBI"@,
        opcode_name(crate::op::LDBU)@ == "LDBU"@,
        opcode_name(crate::op::LDBUI)@ == "LDBUI"@,
        opcode_name(crate::op::LDW)@ == "LDW"@,
        opcode_name(crate::op::LDWI)@ == "LDWI"@,
        opcode_name(crate::op::LDWU)@ == "LDWU"@,
        opcode_name(crate::op::LDWUI)@ == "LDWUI"@,
        opcode_name(crate::op::LDT)@ == "LDT"@,
        opcode_name(crate::op::LDTI)@ == "LDTI"@,
        opcode_name(crate::op::LDTU)@ == "LDTU"@,
        opcode_name(crate::op::LDTUI)@ == "LDTUI"@,
        opcode_name(crate::op::LDO)@ == "LDO"@,
        opcode_name(crate::op::LDOI)@ == "LDOI"@,
        opcode_name(crate::op::LDOU)@ == "LDOU"@,
        opcode_name(crate::op::LDOUI)@ == "LDOUI"@,
        opcode_name(crate::op::LDSF)@ == "LDSF"@,
        opcode_name(crate::op::LDSFI)@ == "LDSFI"@,
        opcode_name(crate::op::LDHT)@ == "LDHT"@,
        opcode_name(crate::op::LDHTI)@ == "LDHTI"@,
        opcode_name(crate::op::CSWAP)@ == "CSWAP"@,
        opcode_name(crate::op::CSWAPI)@ == "CSWAPI"@,
        opcode_name(crate::op::LDUNC)@ == "LDUNC"@,
        opcode_name(crate::op::LDUNCI)@ == "LDUNCI"@,
        opcode_name(crate::op::LDVTS)@ == "LDVTS"@,
        opcode_name(crate::op::LDVTSI)@ == "LDVTSI"@,
        opcode_name(crate::op::PRELD)@ == "PRELD"@,
        opcode_name(crate::op::PRELDI)@ == "PRELDI"@,
        opcode_name(crate::op::PREGO)@ == "PREGO"@,
        opcode_name(crate::op::PREGOI)@ == "PREGOI"@,
        opcode_name(crate::op::GO)@ == "GO"@,
        opcode_name(crate::op::GOI)@ == "GOI"@,
        opcode_name(crate::op::STB)@ == "STB"@,
        opcode_name(crate::op::STBI)@ == "STBI"@,
        opcode_name(crate::op::STBU)@ == "STBU"@,
        opcode_name(crate::op::STBUI)@ == "STBUI"@,
        opcode_name(crate::op::STW)@ == "STW"@,
        opcode_name(crate::op::STWI)@ == "STWI"@,
        opcode_name(crate::op::STWU)@ == "STWU"@,
        opcode_name(crate::op::STWUI)@ == "STWUI"@,
        opcode_name(crate::op::STT)@ == "STT"@,
        opcode_name(crate::op::STTI)@ == "STTI"@,
        opcode_name(crate::op::STTU)@ == "STTU"@,
        opcode_name(crate::op::STTUI)@ == "STTUI"@,
        opcode_name(crate::op::STO)@ == "STO"@,
        opcode_name(crate::op::STOI)@ == "STOI"@,
        opcode_name(crate::op::STOU)@ == "STOU"@,
        opcode_name(crate::op::STOUI)@ == "STOUI"@,
        opcode_name(crate::op::STSF)@ == "STSF"@,
        opcode_name(crate::op::STSFI)@ == "STSFI"@,
        opcode_name(crate::op::STHT)@ == "STHT"@,
        opcode_name(crate::op::STHTI)@ == "STHTI"@,
        opcode_name(crate::op::STCO)@ == "STCO"@,
        opcode_name(crate::op::STCOI)@ == "STCOI"@,
        opcode_name(crate::op::STUNC)@ == "STUNC"@,
        opcode_name(crate::op::STUNCI)@ == "STUNCI"@,
        opcode_name(crate::op::SYNCD)@ == "SYNCD"@,
        opcode_name(crate::op::SYNCDI)@ == "SYNCDI"@,
        opcode_name(crate::op::PREST)@ == "PREST"@,
        opcode_name(crate::op::PRESTI)@ == "PRESTI"@,
        opcode_name(crate::op::SYNCID)@ == "SYNCID"@,
        opcode_name(crate::op::SYNCIDI)@ == "SYNCIDI"@,
        opcode_name(crate::op::PUSHGO)@ == "PUSHGO"@,
        opcode_name(crate::op::PUSHGOI)@ == "PUSHGOI"@,
        opcode_name(crate::op::OR)@ == "OR"@,
        opcode_name(crate::op::ORI)@ == "ORI"@,
        opcode_name(crate::op::ORN)@ == "ORN"@,
        opcode_name(crate::op::ORNI)@ == "ORNI"@,
        opcode_name(crate::op::NOR)@ == "NOR"@,
        opcode_name(crate::op::NORI)@ == "NORI"@,
        opcode_name(crate::op::XOR)@ == "XOR"@,
        opcode_name(crate::op::XORI)@ == "XORI"@,
        opcode_name(crate::op::AND)@ == "AND"@,
        opcode_name(crate::op::ANDI)@ == "ANDI"@,
        opcode_name(crate::op::ANDN)@ == "ANDN"@,
        opcode_name(crate::op::ANDNI)@ == "ANDNI"@,
        opcode_name(crate::op::NAND)@ == "NAND"@,
        opcode_name(crate::op::NANDI)@ == "NANDI"@,
        opcode_name(crate::op::NXOR)@ == "NXOR"@,
        opcode_name(crate::op::NXORI)@ == "NXORI"@,
        opcode_name(crate::op::BDIF)@ == "BDIF"@,
        opcode_name(crate::op::BDIFI)@ == "BDIFI"@,
        opcode_name(crate::op::WDIF)@ == "WDIF"@,
        opcode_name(crate::op::WDIFI)@ == "WDIFI"@,
        opcode_name(crate::op::TDIF)@ == "TDIF"@,
        opcode_name(crate::op::TDIFI)@ == "TDIFI"@,
        opcode_name(crate::op::ODIF)@ == "ODIF"@,
        opcode_name(crate::op::ODIFI)@ == "ODIFI"@,
        opcode_name(crate::op::MUX)@ == "MUX"@,
        opcode_name(crate::op::MUXI)@ == "MUXI"@,
        opcode_name(crate::op::SADD)@ == "SADD"@,
        opcode_name(crate::op::SADDI)@ == "SADDI"@,
        opcode_name(crate::op::MOR)@ == "MOR"@,
        opcode_name(crate::op::MORI)@ == "MORI"@,
        opcode_name(crate::op::MXOR)@ == "MXOR"@,
        opcode_name(crate::op::MXORI)@ == "MXORI"@,
        opcode_name(crate::op::SETH)@ == "SETH"@,
        opcode_name(crate::op::SETMH)@ == "SETMH"@,
        opcode_name(crate::op::SETML)@ == "SETML"@,
        opcode_name(crate::op::SETL)@ == "SETL"@,
        opcode_name(crate::op::INCH)@ == "INCH"@,
        opcode_name(crate::op::INCMH)@ == "INCMH"@,
        opcode_name(crate::op::INCML)@ == "INCML"@,
        opcode_name(crate::op::INCL)@ == "INCL"@,
        opcode_name(crate::op::ORH)@ == "ORH"@,
        opcode_name(crate::op::ORMH)@ == "ORMH"@,
        opcode_name(crate::op::ORML)@ == "ORML"@,
        opcode_name(crate::op::ORL)@ == "ORL"@,
        opcode_name(crate::op::ANDNH)@ == "ANDNH"@,
        opcode_name(crate::op::ANDNMH)@ == "ANDNMH"@,
        opcode_name(crate::op::ANDNML)@ == "ANDNML"@,
        opcode_name(crate::op::ANDNL)@ == "ANDNL"@,
        opcode_name(crate::op::JMP)@ == "JMP"@,
        opcode_name(crate::op::JMPB)@ == "JMPB"@,
        opcode_name(crate::op::PUSHJ)@ == "PUSHJ"@,
        opcode_name(crate::op::PUSHJB)@ == "PUSHJB"@,
        opcode_name(crate::op::GETA)@ == "GETA"@,
        opcode_name(crate::op::GETAB)@ == "GETAB"@,
        opcode_name(crate::op::PUT)@ == "PUT"@,
        opcode_name(crate::op::PUTI)@ == "PUTI"@,
        opcode_name(crate::op::POP)@ == "POP"@,
        opcode_name(crate::op::RESUME)@ == "RESUME"@,
        opcode_name(crate::op::SAVE)@ == "SAVE"@,
        opcode_name(crate::op::UNSAVE)@ == "UNSAVE"@,
        opcode_name(crate::op::SYNC)@ == "SYNC"@,
        opcode_name(crate::op::SWYM)@ == "SWYM"@,
        opcode_name(crate::op::GET)@ == "GET"@,
        opcode_name(crate::op::TRIP)@ == "TRIP"@,
{
}

} // verus!
