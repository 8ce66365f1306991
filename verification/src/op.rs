//! Numeric values of the MMIX opcodes, named as on the reference card.
//! A leading underscore stands for a name that begins with a digit.

use vstd::prelude::*;

verus! {

pub const TRAP: u8 = 0x00;
pub const FCMP: u8 = 0x01;
pub const FUN: u8 = 0x02;
pub const FEQL: u8 = 0x03;
pub const FADD: u8 = 0x04;
pub const FIX: u8 = 0x05;
pub const FSUB: u8 = 0x06;
pub const FIXU: u8 = 0x07;
pub const FLOT: u8 = 0x08;
pub const FLOTI: u8 = 0x09;
pub const FLOTU: u8 = 0x0A;
pub const FLOTUI: u8 = 0x0B;
pub const SFLOT: u8 = 0x0C;
pub const SFLOTI: u8 = 0x0D;
pub const SFLOTU: u8 = 0x0E;
pub const SFLOTUI: u8 = 0x0F;
pub const FMUL: u8 = 0x10;
pub const FCMPE: u8 = 0x11;
pub const FUNE: u8 = 0x12;
pub const FEQLE: u8 = 0x13;
pub const FDIV: u8 = 0x14;
pub const FSQRT: u8 = 0x15;
pub const FREM: u8 = 0x16;
pub const FINT: u8 = 0x17;
pub const MUL: u8 = 0x18;
pub const MULI: u8 = 0x19;
pub const MULU: u8 = 0x1A;
pub const MULUI: u8 = 0x1B;
pub const DIV: u8 = 0x1C;
pub const DIVI: u8 = 0x1D;
pub const DIVU: u8 = 0x1E;
pub const DIVUI: u8 = 0x1F;
pub const ADD: u8 = 0x20;
pub const ADDI: u8 = 0x21;
pub const ADDU: u8 = 0x22;
pub const ADDUI: u8 = 0x23;
pub const SUB: u8 = 0x24;
pub const SUBI: u8 = 0x25;
pub const SUBU: u8 = 0x26;
pub const SUBUI: u8 = 0x27;
pub const _2ADDU: u8 = 0x28;
pub const _2ADDUI: u8 = 0x29;
pub const _4ADDU: u8 = 0x2A;
pub const _4ADDUI: u8 = 0x2B;
pub const _8ADDU: u8 = 0x2C;
pub const _8ADDUI: u8 = 0x2D;
pub const _16ADDU: u8 = 0x2E;
pub const _16ADDUI: u8 = 0x2F;
pub const CMP: u8 = 0x30;
pub const CMPI: u8 = 0x31;
pub const CMPU: u8 = 0x32;
pub const CMPUI: u8 = 0x33;
pub const NEG: u8 = 0x34;
pub const NEGI: u8 = 0x35;
pub const NEGU: u8 = 0x36;
pub const NEGUI: u8 = 0x37;
pub const SL: u8 = 0x38;
pub const SLI: u8 = 0x39;
pub const SLU: u8 = 0x3A;
pub const SLUI: u8 = 0x3B;
pub const SR: u8 = 0x3C;
pub const SRI: u8 = 0x3D;
pub const SRU: u8 = 0x3E;
pub const SRUI: u8 = 0x3F;
pub const BN: u8 = 0x40;
pub const BNB: u8 = 0x41;
pub const BZ: u8 = 0x42;
pub const BZB: u8 = 0x43;
pub const BP: u8 = 0x44;
pub const BPB: u8 = 0x45;
pub const BOD: u8 = 0x46;
pub const BODB: u8 = 0x47;
pub const BNN: u8 = 0x48;
pub const BNNB: u8 = 0x49;
pub const BNZ: u8 = 0x4A;
pub const BNZB: u8 = 0x4B;
pub const BNP: u8 = 0x4C;
pub const BNPB: u8 = 0x4D;
pub const BEV: u8 = 0x4E;
pub const BEVB: u8 = 0x4F;
pub const PBN: u8 = 0x50;
pub const PBNB: u8 = 0x51;
pub const PBZ: u8 = 0x52;
pub const PBZB: u8 = 0x53;
pub const PBP: u8 = 0x54;
pub const PBPB: u8 = 0x55;
pub const PBOD: u8 = 0x56;
pub const PBODB: u8 = 0x57;
pub const PBNN: u8 = 0x58;
pub const PBNNB: u8 = 0x59;
pub const PBNZ: u8 = 0x5A;
pub const PBNZB: u8 = 0x5B;
pub const PBNP: u8 = 0x5C;
pub const PBNPB: u8 = 0x5D;
pub const PBEV: u8 = 0x5E;
pub const PBEVB: u8 = 0x5F;
pub const CSN: u8 = 0x60;
pub const CSNI: u8 = 0x61;
pub const CSZ: u8 = 0x62;
pub const CSZI: u8 = 0x63;
pub const CSP: u8 = 0x64;
pub const CSPI: u8 = 0x65;
pub const CSOD: u8 = 0x66;
pub const CSODI: u8 = 0x67;
pub const CSNN: u8 = 0x68;
pub const CSNNI: u8 = 0x69;
pub const CSNZ: u8 = 0x6A;
pub const CSNZI: u8 = 0x6B;
pub const CSNP: u8 = 0x6C;
pub const CSNPI: u8 = 0x6D;
pub const CSEV: u8 = 0x6E;
pub const CSEVI: u8 = 0x6F;
pub const ZSN: u8 = 0x70;
pub const ZSNI: u8 = 0x71;
pub const ZSZ: u8 = 0x72;
pub const ZSZI: u8 = 0x73;
pub const ZSP: u8 = 0x74;
pub const ZSPI: u8 = 0x75;
pub const ZSOD: u8 = 0x76;
pub const ZSODI: u8 = 0x77;
pub const ZSNN: u8 = 0x78;
pub const ZSNNI: u8 = 0x79;
pub const ZSNZ: u8 = 0x7A;
pub const ZSNZI: u8 = 0x7B;
pub const ZSNP: u8 = 0x7C;
pub const ZSNPI: u8 = 0x7D;
pub const ZSEV: u8 = 0x7E;
pub const ZSEVI: u8 = 0x7F;
pub const LDB: u8 = 0x80;
pub const LDBI: u8 = 0x81;
pub const LDBU: u8 = 0x82;
pub const LDBUI: u8 = 0x83;
pub const LDW: u8 = 0x84;
pub const LDWI: u8 = 0x85;
pub const LDWU: u8 = 0x86;
pub const LDWUI: u8 = 0x87;
pub const LDT: u8 = 0x88;
pub const LDTI: u8 = 0x89;
pub const LDTU: u8 = 0x8A;
pub const LDTUI: u8 = 0x8B;
pub const LDO: u8 = 0x8C;
pub const LDOI: u8 = 0x8D;
pub const LDOU: u8 = 0x8E;
pub const LDOUI: u8 = 0x8F;
pub const LDSF: u8 = 0x90;
pub const LDSFI: u8 = 0x91;
pub const LDHT: u8 = 0x92;
pub const LDHTI: u8 = 0x93;
pub const CSWAP: u8 = 0x94;
pub const CSWAPI: u8 = 0x95;
pub const LDUNC: u8 = 0x96;
pub const LDUNCI: u8 = 0x97;
pub const LDVTS: u8 = 0x98;
pub const LDVTSI: u8 = 0x99;
pub const PRELD: u8 = 0x9A;
pub const PRELDI: u8 = 0x9B;
pub const PREGO: u8 = 0x9C;
pub const PREGOI: u8 = 0x9D;
pub const GO: u8 = 0x9E;
pub const GOI: u8 = 0x9F;
pub const STB: u8 = 0xA0;
pub const STBI: u8 = 0xA1;
pub const STBU: u8 = 0xA2;
pub const STBUI: u8 = 0xA3;
pub const STW: u8 = 0xA4;
pub const STWI: u8 = 0xA5;
pub const STWU: u8 = 0xA6;
pub const STWUI: u8 = 0xA7;
pub const STT: u8 = 0xA8;
pub const STTI: u8 = 0xA9;
pub const STTU: u8 = 0xAA;
pub const STTUI: u8 = 0xAB;
pub const STO: u8 = 0xAC;
pub const STOI: u8 = 0xAD;
pub const STOU: u8 = 0xAE;
pub const STOUI: u8 = 0xAF;
pub const STSF: u8 = 0xB0;
pub const STSFI: u8 = 0xB1;
pub const STHT: u8 = 0xB2;
pub const STHTI: u8 = 0xB3;
pub const STCO: u8 = 0xB4;
pub const STCOI: u8 = 0xB5;
pub const STUNC: u8 = 0xB6;
pub const STUNCI: u8 = 0xB7;
pub const SYNCD: u8 = 0xB8;
pub const SYNCDI: u8 = 0xB9;
pub const PREST: u8 = 0xBA;
pub const PRESTI: u8 = 0xBB;
pub const SYNCID: u8 = 0xBC;
pub const SYNCIDI: u8 = 0xBD;
pub const PUSHGO: u8 = 0xBE;
pub const PUSHGOI: u8 = 0xBF;
pub const OR: u8 = 0xC0;
pub const ORI: u8 = 0xC1;
pub const ORN: u8 = 0xC2;
pub const ORNI: u8 = 0xC3;
pub const NOR: u8 = 0xC4;
pub const NORI: u8 = 0xC5;
pub const XOR: u8 = 0xC6;
pub const XORI: u8 = 0xC7;
pub const AND: u8 = 0xC8;
pub const ANDI: u8 = 0xC9;
pub const ANDN: u8 = 0xCA;
pub const ANDNI: u8 = 0xCB;
pub const NAND: u8 = 0xCC;
pub const NANDI: u8 = 0xCD;
pub const NXOR: u8 = 0xCE;
pub const NXORI: u8 = 0xCF;
pub const BDIF: u8 = 0xD0;
pub const BDIFI: u8 = 0xD1;
pub const WDIF: u8 = 0xD2;
pub const WDIFI: u8 = 0xD3;
pub const TDIF: u8 = 0xD4;
pub const TDIFI: u8 = 0xD5;
pub const ODIF: u8 = 0xD6;
pub const ODIFI: u8 = 0xD7;
pub const MUX: u8 = 0xD8;
pub const MUXI: u8 = 0xD9;
pub const SADD: u8 = 0xDA;
pub const SADDI: u8 = 0xDB;
pub const MOR: u8 = 0xDC;
pub const MORI: u8 = 0xDD;
pub const MXOR: u8 = 0xDE;
pub const MXORI: u8 = 0xDF;
pub const SETH: u8 = 0xE0;
pub const SETMH: u8 = 0xE1;
pub const SETML: u8 = 0xE2;
pub const SETL: u8 = 0xE3;
pub const INCH: u8 = 0xE4;
pub const INCMH: u8 = 0xE5;
pub const INCML: u8 = 0xE6;
pub const INCL: u8 = 0xE7;
pub const ORH: u8 = 0xE8;
pub const ORMH: u8 = 0xE9;
pub const ORML: u8 = 0xEA;
pub const ORL: u8 = 0xEB;
pub const ANDNH: u8 = 0xEC;
pub const ANDNMH: u8 = 0xED;
pub const ANDNML: u8 = 0xEE;
pub const ANDNL: u8 = 0xEF;
pub const JMP: u8 = 0xF0;
pub const JMPB: u8 = 0xF1;
pub const PUSHJ: u8 = 0xF2;
pub const PUSHJB: u8 = 0xF3;
pub const GETA: u8 = 0xF4;
pub const GETAB: u8 = 0xF5;
pub const PUT: u8 = 0xF6;
pub const PUTI: u8 = 0xF7;
pub const POP: u8 = 0xF8;
pub const RESUME: u8 = 0xF9;
pub const SAVE: u8 = 0xFA;
pub const UNSAVE: u8 = 0xFB;
pub const SYNC: u8 = 0xFC;
pub const SWYM: u8 = 0xFD;
pub const GET: u8 = 0xFE;
pub const TRIP: u8 = 0xFF;

} // verus!
