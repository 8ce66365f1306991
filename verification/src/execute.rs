//! Executing MMIX instructions: the meaning of each implemented opcode as a
//! function from machine state to machine state, and `Machine::step`, which
//! carries it out.

use crate::instruction::RawInst;
use crate::machine::{Machine, MachineState};
use crate::memory::{be_bytes, be_value, byte_at, load_bytes, store_bytes};
use crate::op;
use crate::opcodes::{opcode_timing, timing};
use crate::register::{spec_from_encoding, SpecialRegister};
use crate::text::{decimal, digit, digit_char, hex, push_char, push_decimal, push_hex, push_str};
use vstd::prelude::*;

verus! {

/// Why an instruction could not be executed. No state changes in that case.
#[derive(Debug, Clone, Copy, PartialEq, Eq, Structural)]
pub enum StepError {
    /// The machine has already halted.
    Halted,
    /// `GET` named a special register that does not exist.
    InvalidGet(u8),
    /// `PUT` named a special register that does not exist.
    InvalidPut(u8),
    /// A `TRAP` other than Halt (0,0,0) and Fputs (0,1,1).
    UnimplementedTrap(u8, u8, u8),
    /// An opcode that this simulator does not implement.
    UnimplementedOpcode { op: u8, pc: u64 },
}

/// A byte as `{:#04x}` writes it: `0x` and two hexadecimal digits.
pub open spec fn hex_byte(b: u8) -> Seq<char> {
    seq!['0', 'x', digit_char((b / 16) as nat), digit_char((b % 16) as nat)]
}

/// The text of each step error.
pub open spec fn step_error_text(e: StepError) -> Seq<char> {
    match e {
        StepError::Halted => "Machine halted"@,
        StepError::InvalidGet(z) => "GET: invalid special register "@ + decimal(z as nat),
        StepError::InvalidPut(x) => "PUT: invalid special register "@ + decimal(x as nat),
        StepError::UnimplementedTrap(x, y, z) => "Unimplemented TRAP "@ + decimal(x as nat) + ","@
            + decimal(y as nat) + ","@ + decimal(z as nat),
        StepError::UnimplementedOpcode { op, pc } => "Unimplemented opcode: "@ + hex_byte(op)
            + " at PC="@ + hex(pc as nat),
    }
}

impl StepError {
    /// The error as text.
    pub fn message(&self) -> (s: String)
        ensures
            s@ == step_error_text(*self),
    {
        let mut s = String::new();
        match *self {
            StepError::Halted => push_str(&mut s, "Machine halted"),
            StepError::InvalidGet(z) => {
                push_str(&mut s, "GET: invalid special register ");
                push_decimal(&mut s, z as u64);
            },
            StepError::InvalidPut(x) => {
                push_str(&mut s, "PUT: invalid special register ");
                push_decimal(&mut s, x as u64);
            },
            StepError::UnimplementedTrap(x, y, z) => {
                push_str(&mut s, "Unimplemented TRAP ");
                push_decimal(&mut s, x as u64);
                push_str(&mut s, ",");
                push_decimal(&mut s, y as u64);
                push_str(&mut s, ",");
                push_decimal(&mut s, z as u64);
            },
            StepError::UnimplementedOpcode { op, pc } => {
                push_str(&mut s, "Unimplemented opcode: ");
                push_char(&mut s, '0');
                push_char(&mut s, 'x');
                push_char(&mut s, digit((op / 16) as u64));
                push_char(&mut s, digit((op % 16) as u64));
                push_str(&mut s, " at PC=");
                push_hex(&mut s, pc);
            },
        }
        assert(s@ =~= step_error_text(*self));
        s
    }
}

// ---------------------------------------------------------------------------
// Arithmetic on 64-bit words
// ---------------------------------------------------------------------------

pub open spec fn two64() -> int {
    0x1_0000_0000_0000_0000
}

/// A word read as a two's-complement signed number.
pub open spec fn signed(v: u64) -> int {
    if v < 0x8000_0000_0000_0000 {
        v as int
    } else {
        v as int - two64()
    }
}

/// An integer reduced to a word (modulo 2^64).
pub open spec fn wrap(i: int) -> u64 {
    (i % two64()) as u64
}

/// Quotient of a division that rounds toward minus infinity.
pub open spec fn floor_div(a: int, b: int) -> int {
    if b > 0 {
        a / b
    } else {
        (-a) / (-b)
    }
}

/// Remainder of a division that rounds toward minus infinity; it has the
/// sign of `b`.
pub open spec fn floor_rem(a: int, b: int) -> int {
    a - b * floor_div(a, b)
}

/// Quotient of a division that rounds toward zero.
pub open spec fn trunc_div(a: int, b: int) -> int {
    if (a >= 0) == (b >= 0) {
        (vstd::math::abs(a) / vstd::math::abs(b)) as int
    } else {
        -((vstd::math::abs(a) / vstd::math::abs(b)) as int)
    }
}

/// Remainder of a division that rounds toward zero; it has the sign of `a`.
pub open spec fn trunc_rem(a: int, b: int) -> int {
    a - b * trunc_div(a, b)
}

/// Arithmetic (sign-propagating) right shift.
pub open spec fn shift_right_signed(a: u64, k: u64) -> u64 {
    if a < 0x8000_0000_0000_0000 {
        a >> k
    } else {
        !((!a) >> k)
    }
}

/// The low `bits` bits of `v`, sign-extended to a word.
pub open spec fn sign_extend(v: nat, bits: nat) -> u64 {
    let half = vstd::arithmetic::power2::pow2((bits - 1) as nat);
    if v < half {
        v as u64
    } else {
        (v + two64() - 2 * half) as u64
    }
}

/// Comparison result: -1, 0 or 1 as a word.
pub open spec fn compare(a: int, b: int) -> u64 {
    if a < b {
        wrap(-1)
    } else if a > b {
        1
    } else {
        0
    }
}

/// The condition that bits 1..3 of a branch, CS or ZS opcode select.
pub open spec fn condition(op: u8, v: u64) -> bool {
    let c = (op / 2) % 8;
    if c == 0 {
        signed(v) < 0
    } else if c == 1 {
        v == 0
    } else if c == 2 {
        signed(v) > 0
    } else if c == 3 {
        v % 2 == 1
    } else if c == 4 {
        signed(v) >= 0
    } else if c == 5 {
        v != 0
    } else if c == 6 {
        signed(v) <= 0
    } else {
        v % 2 == 0
    }
}

// ---------------------------------------------------------------------------
// The meaning of one instruction
// ---------------------------------------------------------------------------

/// Odd opcodes take the immediate Z in place of `$Z`.
pub open spec fn is_imm(inst: RawInst) -> bool {
    inst.op % 2 == 1
}

pub open spec fn reg(s: MachineState, r: u8) -> u64 {
    s.general[r as int]
}

/// The second operand: `$Z`, or the immediate Z for odd opcodes.
pub open spec fn operand_z(s: MachineState, inst: RawInst) -> u64 {
    if is_imm(inst) {
        inst.z as u64
    } else {
        reg(s, inst.z)
    }
}

/// The effective address `$Y + $Z` (or `$Y + Z`).
pub open spec fn effective_addr(s: MachineState, inst: RawInst) -> u64 {
    wrap(reg(s, inst.y) + operand_z(s, inst))
}

/// The byte offset of a relative branch: YZ tetras forward, or backward
/// (counted from 0x10000) for odd opcodes.
pub open spec fn branch_offset(inst: RawInst) -> int {
    if is_imm(inst) {
        -((0x10000 - inst.spec_yz()) * 4)
    } else {
        (inst.spec_yz() * 4) as int
    }
}

pub open spec fn branch_target(s: MachineState, inst: RawInst) -> u64 {
    wrap(s.pc + branch_offset(inst))
}

/// The 24-bit field XYZ of a jump.
pub open spec fn xyz(inst: RawInst) -> int {
    inst.x * 0x10000 + inst.spec_yz()
}

/// The byte offset of a jump: XYZ tetras forward, or backward (counted
/// from 0x1000000) for JMPB.
pub open spec fn jump_offset(inst: RawInst) -> int {
    if is_imm(inst) {
        -((0x100_0000 - xyz(inst)) * 4)
    } else {
        xyz(inst) * 4
    }
}

pub open spec fn jump_target(s: MachineState, inst: RawInst) -> u64 {
    wrap(s.pc + jump_offset(inst))
}

/// Address of the next instruction in sequence.
pub open spec fn next_pc(s: MachineState) -> u64 {
    wrap(s.pc + 4)
}

pub open spec fn with_reg(s: MachineState, r: u8, v: u64) -> MachineState {
    MachineState { general: s.general.update(r as int, v), ..s }
}

pub open spec fn with_special(s: MachineState, r: SpecialRegister, v: u64) -> MachineState {
    MachineState { special: s.special.with(r, v), ..s }
}

pub open spec fn with_pc(s: MachineState, pc: u64) -> MachineState {
    MachineState { pc, ..s }
}

/// `$X` receives `v`; execution continues in sequence.
pub open spec fn set_x(s: MachineState, inst: RawInst, v: u64) -> MachineState {
    with_pc(with_reg(s, inst.x, v), next_pc(s))
}

/// The value that an arithmetic, shift, logic or zero-or-set instruction
/// writes to `$X`.
pub open spec fn alu_value(s: MachineState, inst: RawInst) -> u64 {
    let a = reg(s, inst.y);
    let b = operand_z(s, inst);
    let op = inst.op;
    if op == op::MUL || op == op::MULI {
        wrap(signed(a) * signed(b))
    } else if op == op::ADD || op == op::ADDI || op == op::ADDU || op == op::ADDUI {
        wrap(a + b)
    } else if op == op::SUB || op == op::SUBI || op == op::SUBU || op == op::SUBUI {
        wrap(a - b)
    } else if op == op::_2ADDU || op == op::_2ADDUI {
        wrap(a * 2 + b)
    } else if op == op::_4ADDU || op == op::_4ADDUI {
        wrap(a * 4 + b)
    } else if op == op::_8ADDU || op == op::_8ADDUI {
        wrap(a * 8 + b)
    } else if op == op::_16ADDU || op == op::_16ADDUI {
        wrap(a * 16 + b)
    } else if op == op::CMP || op == op::CMPI {
        compare(signed(a), signed(b))
    } else if op == op::CMPU || op == op::CMPUI {
        compare(a as int, b as int)
    } else if op == op::NEG || op == op::NEGI || op == op::NEGU || op == op::NEGUI {
        wrap(inst.y - b)
    } else if op == op::SL || op == op::SLI || op == op::SLU || op == op::SLUI {
        if b >= 64 {
            0
        } else {
            a << b
        }
    } else if op == op::SR || op == op::SRI {
        if b >= 64 {
            if a < 0x8000_0000_0000_0000 {
                0
            } else {
                0xFFFF_FFFF_FFFF_FFFF
            }
        } else {
            shift_right_signed(a, b)
        }
    } else if op == op::SRU || op == op::SRUI {
        if b >= 64 {
            0
        } else {
            a >> b
        }
    } else if op == op::OR || op == op::ORI {
        a | b
    } else if op == op::ORN || op == op::ORNI {
        a | !b
    } else if op == op::NOR || op == op::NORI {
        !(a | b)
    } else if op == op::XOR || op == op::XORI {
        a ^ b
    } else if op == op::AND || op == op::ANDI {
        a & b
    } else if op == op::ANDN || op == op::ANDNI {
        a & !b
    } else if op == op::NAND || op == op::NANDI {
        !(a & b)
    } else if op == op::NXOR || op == op::NXORI {
        !(a ^ b)
    } else {
        // zero or set (ZSN ..= ZSEVI)
        if condition(op, a) {
            b
        } else {
            0
        }
    }
}

/// Opcodes whose only effect is [`alu_value`] written to `$X`.
pub open spec fn is_alu_op(op: u8) -> bool {
    ||| op == 0x18 || op == 0x19
    ||| 0x20 <= op <= 0x3F
    ||| 0xC0 <= op <= 0xCF
    ||| 0x70 <= op <= 0x7F
}

/// The value that a load instruction (LDB ..= LDOUI) puts in `$X`.
pub open spec fn load_value(s: MachineState, inst: RawInst) -> u64 {
    let addr = effective_addr(s, inst);
    let m = s.memory;
    let kind = (inst.op - 0x80) / 2;
    if kind == 0 {
        sign_extend(byte_at(m, addr) as nat, 8)
    } else if kind == 1 {
        byte_at(m, addr) as u64
    } else if kind == 2 {
        sign_extend(be_value(load_bytes(m, addr, 2)), 16)
    } else if kind == 3 {
        be_value(load_bytes(m, addr, 2)) as u64
    } else if kind == 4 {
        sign_extend(be_value(load_bytes(m, addr, 4)), 32)
    } else if kind == 5 {
        be_value(load_bytes(m, addr, 4)) as u64
    } else {
        be_value(load_bytes(m, addr, 8)) as u64
    }
}

/// Memory after a store instruction (STB ..= STOUI) writes `$X`.
pub open spec fn store_result(s: MachineState, inst: RawInst) -> Map<u64, u8> {
    let addr = effective_addr(s, inst);
    let v = reg(s, inst.x) as nat;
    let kind = (inst.op - 0xA0) / 4;
    if kind == 0 {
        s.memory.insert(addr, (v % 0x100) as u8)
    } else if kind == 1 {
        store_bytes(s.memory, addr, be_bytes(v % 0x1_0000, 2))
    } else if kind == 2 {
        store_bytes(s.memory, addr, be_bytes(v % 0x1_0000_0000, 4))
    } else {
        store_bytes(s.memory, addr, be_bytes(v, 8))
    }
}

/// The value that a wyde-immediate instruction (SETH ..= ANDNL) puts in `$X`.
pub open spec fn wyde_value(s: MachineState, inst: RawInst) -> u64 {
    let v = reg(s, inst.x);
    let shift: u64 = (48 - 16 * (inst.op % 4)) as u64;
    let w = (inst.spec_yz() as u64) << shift;
    let kind = (inst.op - 0xE0) / 4;
    if kind == 0 {
        w
    } else if kind == 1 {
        wrap(v + w)
    } else if kind == 2 {
        v | w
    } else {
        v & !w
    }
}

/// The bytes of the zero-terminated string at `addr`, without the zero,
/// looked for within `fuel` bytes.
pub open spec fn c_string(m: Map<u64, u8>, addr: u64, fuel: nat) -> Seq<u8>
    decreases fuel,
{
    if fuel == 0 || byte_at(m, addr) == 0 {
        Seq::empty()
    } else {
        seq![byte_at(m, addr)] + c_string(m, wrap(addr + 1), (fuel - 1) as nat)
    }
}

/// The effect of `TRAP X,Y,Z`.
pub open spec fn trap_result(s: MachineState, inst: RawInst) -> Result<MachineState, StepError> {
    if inst.x == 0 && inst.y == 0 && inst.z == 0 {
        Ok(with_pc(MachineState { halted: true, ..s }, next_pc(s)))
    } else if inst.x == 0 && inst.y == 1 && inst.z == 1 {
        let text = c_string(s.memory, reg(s, 255), s.memory.len() + 1);
        Ok(with_pc(MachineState { output: s.output + text, ..s }, next_pc(s)))
    } else {
        Err(StepError::UnimplementedTrap(inst.x, inst.y, inst.z))
    }
}

/// The effect of executing `inst` in state `s`; on success the program
/// counter points to the next instruction to run. The cost counters are
/// not touched here.
pub open spec fn execute(s: MachineState, inst: RawInst) -> Result<MachineState, StepError> {
    let op = inst.op;
    let a = reg(s, inst.y);
    let b = operand_z(s, inst);
    if is_alu_op(op) {
        Ok(set_x(s, inst, alu_value(s, inst)))
    } else if op == op::DIV || op == op::DIVI {
        if signed(b) == 0 {
            Ok(with_special(set_x(s, inst, 0), SpecialRegister::Rr, a))
        } else {
            Ok(with_special(set_x(s, inst, wrap(floor_div(signed(a), signed(b)))), SpecialRegister::Rr,
                wrap(floor_rem(signed(a), signed(b)))))
        }
    } else if op == op::MULU || op == op::MULUI {
        let p = a as int * b as int;
        Ok(with_special(set_x(s, inst, (p % two64()) as u64), SpecialRegister::Rh, (p / two64()) as u64))
    } else if op == op::DIVU || op == op::DIVUI {
        let hi = s.special.value(SpecialRegister::Rd);
        if hi >= b {
            Ok(with_special(set_x(s, inst, s.special.value(SpecialRegister::Rd)), SpecialRegister::Rr, a))
        } else {
            let n = hi as int * two64() + a as int;
            Ok(with_special(set_x(s, inst, (n / b as int) as u64), SpecialRegister::Rr, (n % b as int) as u64))
        }
    } else if 0x80 <= op <= 0x8F {
        Ok(set_x(s, inst, load_value(s, inst)))
    } else if 0xA0 <= op <= 0xAF {
        Ok(with_pc(MachineState { memory: store_result(s, inst), ..s }, next_pc(s)))
    } else if 0xE0 <= op <= 0xEF {
        Ok(set_x(s, inst, wyde_value(s, inst)))
    } else if 0x40 <= op <= 0x4F {
        if condition(op, reg(s, inst.x)) {
            Ok(with_pc(s, branch_target(s, inst)))
        } else {
            Ok(with_pc(s, next_pc(s)))
        }
    } else if op == op::JMP || op == op::JMPB {
        Ok(with_pc(s, jump_target(s, inst)))
    } else if op == op::GO || op == op::GOI {
        Ok(with_pc(with_reg(s, inst.x, next_pc(s)), effective_addr(s, inst)))
    } else if op == op::GETA || op == op::GETAB {
        Ok(set_x(s, inst, branch_target(s, inst)))
    } else if 0x60 <= op <= 0x6F {
        if condition(op, a) {
            Ok(set_x(s, inst, b))
        } else {
            Ok(with_pc(s, next_pc(s)))
        }
    } else if op == op::GET {
        match spec_from_encoding(inst.z) {
            Some(r) => Ok(set_x(s, inst, s.special.value(r))),
            None => Err(StepError::InvalidGet(inst.z)),
        }
    } else if op == op::PUT || op == op::PUTI {
        match spec_from_encoding(inst.x) {
            Some(r) => Ok(with_pc(with_special(s, r, b), next_pc(s))),
            None => Err(StepError::InvalidPut(inst.x)),
        }
    } else if op == op::TRAP {
        trap_result(s, inst)
    } else {
        Err(StepError::UnimplementedOpcode { op, pc: s.pc })
    }
}

/// The instruction at the program counter.
pub open spec fn current_inst(s: MachineState) -> RawInst {
    RawInst::spec_decode(be_value(load_bytes(s.memory, s.pc, 4)) as u32)
}

/// One step of the machine: fetch, decode, execute, count the cost.
pub open spec fn step_spec(s: MachineState) -> Result<MachineState, StepError> {
    if s.halted {
        Err(StepError::Halted)
    } else {
        let inst = current_inst(s);
        match execute(s, inst) {
            Err(e) => Err(e),
            Ok(s2) => {
                let t = opcode_timing(inst.op);
                Ok(MachineState { oops: (s2.oops + t.v) as u64, mems: (s2.mems + t.mu) as u64, ..s2 })
            },
        }
    }
}

/// Opcodes that this machine does not carry out.
pub open spec fn is_unimplemented(op: u8) -> bool {
    ||| 0x01 <= op <= 0x17
    ||| 0x50 <= op <= 0x5F
    ||| 0x90 <= op <= 0x9D
    ||| 0xB0 <= op <= 0xBF
    ||| 0xD0 <= op <= 0xDF
    ||| op == 0xF2 || op == 0xF3
    ||| 0xF8 <= op <= 0xFD
    ||| op == 0xFF
}

/// A step fails exactly on a halted machine, on an opcode that is not
/// carried out, on GET or PUT of a number that names no special register,
/// and on a TRAP other than halt (0,0,0) and string output (0,1,1).
pub proof fn lemma_step_fails(s: MachineState)
    ensures
        step_spec(s) is Err <==> {
            let i = current_inst(s);
            ||| s.halted
            ||| is_unimplemented(i.op)
            ||| (i.op == op::GET && spec_from_encoding(i.z) is None)
            ||| ((i.op == op::PUT || i.op == op::PUTI) && spec_from_encoding(i.x) is None)
            ||| (i.op == op::TRAP && !(i.x == 0 && i.y == 0 && i.z == 0) && !(i.x == 0 && i.y == 1
                && i.z == 1))
        },
{
}

/// A step that succeeds adds the opcode's cost to the counters and, unless
/// the instruction is a branch, GO or a jump, moves on to the next tetra.
pub proof fn lemma_step_advances(s: MachineState)
    requires
        step_spec(s) is Ok,
        !step_overflows(s),
    ensures
        ({
            let i = current_inst(s);
            match step_spec(s) {
                Ok(s2) => {
                    &&& s2.oops == s.oops + opcode_timing(i.op).v
                    &&& s2.mems == s.mems + opcode_timing(i.op).mu
                    &&& !(0x40 <= i.op <= 0x4F || i.op == op::GO || i.op == op::GOI || i.op == op::JMP
                        || i.op == op::JMPB) ==> s2.pc == next_pc(s)
                },
                Err(_) => false,
            }
        }),
{
}

/// A step that succeeds, as a state (the state itself where it fails).
pub open spec fn stepped_state(s: MachineState) -> MachineState {
    match step_spec(s) {
        Ok(s2) => s2,
        Err(_) => s,
    }
}

/// The remainder of the division rounding down has the sign of the divisor
/// and is smaller than it.
pub proof fn lemma_floor_rem_sign(a: int, b: int)
    requires
        b != 0,
    ensures
        a == b * floor_div(a, b) + floor_rem(a, b),
        b > 0 ==> 0 <= floor_rem(a, b) < b,
        b < 0 ==> b < floor_rem(a, b) <= 0,
{
    if b > 0 {
        vstd::arithmetic::div_mod::lemma_fundamental_div_mod(a, b);
    } else {
        vstd::arithmetic::div_mod::lemma_fundamental_div_mod(-a, -b);
        assert(a - b * ((-a) / (-b)) == -((-a) - (-b) * ((-a) / (-b)))) by (nonlinear_arith);
    }
}

/// A conditional branch goes to its target exactly when its condition on
/// `$X` holds and otherwise on to the next tetra; JMP goes XYZ tetras on
/// (JMPB back); neither touches registers or memory.
pub proof fn lemma_step_branch(s: MachineState)
    requires
        !s.halted,
        !step_overflows(s),
        s.general.len() == 256,
        ({
            let op = current_inst(s).op;
            0x40 <= op <= 0x4F || op == op::JMP || op == op::JMPB
        }),
    ensures
        ({
            let i = current_inst(s);
            let s2 = stepped_state(s);
            &&& step_spec(s) is Ok
            &&& s2.general == s.general && s2.special == s.special && s2.memory == s.memory
            &&& s2.pc == if i.op == op::JMP || i.op == op::JMPB {
                jump_target(s, i)
            } else if condition(i.op, reg(s, i.x)) {
                branch_target(s, i)
            } else {
                next_pc(s)
            }
        }),
{
}

/// An arithmetic, shift, logic, conditional-set or wyde instruction writes
/// only `$X` (and rH for MULU, rR for the divisions), and leaves memory,
/// the halt flag and the output alone.
pub proof fn lemma_step_register_frame(s: MachineState)
    requires
        !s.halted,
        !step_overflows(s),
        s.general.len() == 256,
        ({
            let op = current_inst(s).op;
            0x18 <= op <= 0x3F || 0x60 <= op <= 0x7F || 0xC0 <= op <= 0xCF || 0xE0 <= op <= 0xEF
        }),
    ensures
        ({
            let i = current_inst(s);
            let s2 = stepped_state(s);
            &&& step_spec(s) is Ok
            &&& s2.memory == s.memory && s2.halted == s.halted && s2.output == s.output
            &&& s2.pc == next_pc(s)
            &&& forall|j: int| 0 <= j < s.general.len() && j != i.x ==> s2.general[j] == s.general[j]
            &&& forall|r: SpecialRegister|
                !((i.op == op::MULU || i.op == op::MULUI) && r == SpecialRegister::Rh) && !((i.op
                    == op::DIV || i.op == op::DIVI || i.op == op::DIVU || i.op == op::DIVUI) && r
                    == SpecialRegister::Rr) ==> #[trigger] s2.special.value(r) == s.special.value(r)
        }),
{
    broadcast use crate::register::lemma_with_value;

}

/// NEG and NEGU subtract `$Z` (or Z) from the constant Y, wrapping around.
pub proof fn lemma_step_neg(s: MachineState)
    requires
        !s.halted,
        !step_overflows(s),
        s.general.len() == 256,
        0x34 <= current_inst(s).op <= 0x37,
    ensures
        ({
            let i = current_inst(s);
            &&& step_spec(s) is Ok
            &&& stepped_state(s).general[i.x as int] == wrap(i.y - operand_z(s, i))
        }),
{
}

/// DIV and DIVI round the quotient down and leave in rR the remainder,
/// which has the sign of the divisor; a zero divisor gives 0 and leaves
/// the dividend in rR.
pub proof fn lemma_step_divide(s: MachineState)
    requires
        !s.halted,
        !step_overflows(s),
        s.general.len() == 256,
        current_inst(s).op == op::DIV || current_inst(s).op == op::DIVI,
    ensures
        ({
            let i = current_inst(s);
            let a = signed(reg(s, i.y));
            let b = signed(operand_z(s, i));
            let s2 = stepped_state(s);
            &&& step_spec(s) is Ok
            &&& b == 0 ==> s2.general[i.x as int] == 0 && s2.special.value(SpecialRegister::Rr) == reg(
                s,
                i.y,
            )
            &&& b != 0 ==> {
                &&& s2.general[i.x as int] == wrap(floor_div(a, b))
                &&& s2.special.value(SpecialRegister::Rr) == wrap(floor_rem(a, b))
                &&& a == b * floor_div(a, b) + floor_rem(a, b)
                &&& b > 0 ==> 0 <= floor_rem(a, b) < b
                &&& b < 0 ==> b < floor_rem(a, b) <= 0
            }
        }),
{
    broadcast use crate::register::lemma_with_value;

    let i = current_inst(s);
    let b = signed(operand_z(s, i));
    if b != 0 {
        lemma_floor_rem_sign(signed(reg(s, i.y)), b);
    }
}

/// A shift by 64 or more gives 0, except an arithmetic right shift of a
/// negative number, which gives all ones.
pub proof fn lemma_step_long_shift(s: MachineState)
    requires
        !s.halted,
        !step_overflows(s),
        s.general.len() == 256,
        0x38 <= current_inst(s).op <= 0x3F,
        operand_z(s, current_inst(s)) >= 64,
    ensures
        ({
            let i = current_inst(s);
            &&& step_spec(s) is Ok
            &&& stepped_state(s).general[i.x as int] == if (i.op == op::SR || i.op == op::SRI)
                && signed(reg(s, i.y)) < 0 {
                0xFFFF_FFFF_FFFF_FFFFu64
            } else {
                0
            }
        }),
{
}

/// A conditional set writes `$Z` (or Z) to `$X` when its condition on
/// `$Y` holds and otherwise keeps `$X`; a zero-or-set writes 0 then.
pub proof fn lemma_step_conditional_set(s: MachineState)
    requires
        !s.halted,
        !step_overflows(s),
        s.general.len() == 256,
        0x60 <= current_inst(s).op <= 0x7F,
    ensures
        ({
            let i = current_inst(s);
            let c = condition(i.op, reg(s, i.y));
            &&& step_spec(s) is Ok
            &&& stepped_state(s).general[i.x as int] == if c {
                operand_z(s, i)
            } else if i.op < 0x70 {
                reg(s, i.x)
            } else {
                0
            }
        }),
{
}

/// A load puts the value read at `$Y + $Z` (or `$Y + Z`) into `$X` and
/// leaves memory alone; a store writes `$X` there and leaves the registers
/// alone.
pub proof fn lemma_step_load_store(s: MachineState)
    requires
        !s.halted,
        !step_overflows(s),
        s.general.len() == 256,
        0x80 <= current_inst(s).op <= 0x8F || 0xA0 <= current_inst(s).op <= 0xAF,
    ensures
        ({
            let i = current_inst(s);
            let s2 = stepped_state(s);
            &&& step_spec(s) is Ok
            &&& i.op <= 0x8F ==> s2.general[i.x as int] == load_value(s, i) && s2.memory == s.memory
            &&& i.op >= 0xA0 ==> s2.memory == store_result(s, i) && s2.general == s.general
            &&& s2.special == s.special && s2.pc == next_pc(s)
        }),
{
}

/// CMP and CMPI compare `$Y` with `$Z` (or the byte Z) as two's-complement
/// numbers, CMPU and CMPUI as unsigned ones, and write -1, 0 or 1 to `$X`
/// for less, equal or greater.
pub proof fn lemma_step_compare(s: MachineState)
    requires
        !s.halted,
        !step_overflows(s),
        s.general.len() == 256,
        ({
            let op = current_inst(s).op;
            op == op::CMP || op == op::CMPI || op == op::CMPU || op == op::CMPUI
        }),
    ensures
        ({
            let i = current_inst(s);
            let y: u64 = s.general[i.y as int];
            let z: u64 = if i.op % 2 == 1 {
                i.z as u64
            } else {
                s.general[i.z as int]
            };
            let two_c = i.op == op::CMP || i.op == op::CMPI;
            let less = if two_c {
                (y as i64) < (z as i64)
            } else {
                y < z
            };
            let greater = if two_c {
                (y as i64) > (z as i64)
            } else {
                y > z
            };
            &&& step_spec(s) is Ok
            &&& stepped_state(s).general[i.x as int] == if less {
                0xFFFF_FFFF_FFFF_FFFFu64
            } else if greater {
                1u64
            } else {
                0u64
            }
        }),
{
    let i = current_inst(s);
    lemma_as_i64(s.general[i.y as int]);
    lemma_as_i64(operand_z(s, i));
    lemma_bits_u8(i.op);
    assert(wrap(-1) == 0xFFFF_FFFF_FFFF_FFFFu64);
}

/// The conditions of the branches, probable branches, conditional sets and
/// zero-or-sets are those their names say: N negative, Z zero, P positive,
/// OD odd, NN nonnegative, NZ nonzero, NP nonpositive, EV even, all of the
/// word read as a two's-complement number.
pub proof fn lemma_conditions_named(v: u64)
    ensures
            condition(op::BN, v) == ((v as i64) < 0),
            condition(op::BNB, v) == ((v as i64) < 0),
            condition(op::BZ, v) == (v == 0),
            condition(op::BZB, v) == (v == 0),
            condition(op::BP, v) == ((v as i64) > 0),
            condition(op::BPB, v) == ((v as i64) > 0),
            condition(op::BOD, v) == (v % 2 == 1),
            condition(op::BODB, v) == (v % 2 == 1),
            condition(op::BNN, v) == ((v as i64) >= 0),
            condition(op::BNNB, v) == ((v as i64) >= 0),
            condition(op::BNZ, v) == (v != 0),
            condition(op::BNZB, v) == (v != 0),
            condition(op::BNP, v) == ((v as i64) <= 0),
            condition(op::BNPB, v) == ((v as i64) <= 0),
            condition(op::BEV, v) == (v % 2 == 0),
            condition(op::BEVB, v) == (v % 2 == 0),
            condition(op::PBN, v) == ((v as i64) < 0),
            condition(op::PBNB, v) == ((v as i64) < 0),
            condition(op::PBZ, v) == (v == 0),
            condition(op::PBZB, v) == (v == 0),
            condition(op::PBP, v) == ((v as i64) > 0),
            condition(op::PBPB, v) == ((v as i64) > 0),
            condition(op::PBOD, v) == (v % 2 == 1),
            condition(op::PBODB, v) == (v % 2 == 1),
            condition(op::PBNN, v) == ((v as i64) >= 0),
            condition(op::PBNNB, v) == ((v as i64) >= 0),
            condition(op::PBNZ, v) == (v != 0),
            condition(op::PBNZB, v) == (v != 0),
            condition(op::PBNP, v) == ((v as i64) <= 0),
            condition(op::PBNPB, v) == ((v as i64) <= 0),
            condition(op::PBEV, v) == (v % 2 == 0),
            condition(op::PBEVB, v) == (v % 2 == 0),
            condition(op::CSN, v) == ((v as i64) < 0),
            condition(op::CSNI, v) == ((v as i64) < 0),
            condition(op::CSZ, v) == (v == 0),
            condition(op::CSZI, v) == (v == 0),
            condition(op::CSP, v) == ((v as i64) > 0),
            condition(op::CSPI, v) == ((v as i64) > 0),
            condition(op::CSOD, v) == (v % 2 == 1),
            condition(op::CSODI, v) == (v % 2 == 1),
            condition(op::CSNN, v) == ((v as i64) >= 0),
            condition(op::CSNNI, v) == ((v as i64) >= 0),
            condition(op::CSNZ, v) == (v != 0),
            condition(op::CSNZI, v) == (v != 0),
            condition(op::CSNP, v) == ((v as i64) <= 0),
            condition(op::CSNPI, v) == ((v as i64) <= 0),
            condition(op::CSEV, v) == (v % 2 == 0),
            condition(op::CSEVI, v) == (v % 2 == 0),
            condition(op::ZSN, v) == ((v as i64) < 0),
            condition(op::ZSNI, v) == ((v as i64) < 0),
            condition(op::ZSZ, v) == (v == 0),
            condition(op::ZSZI, v) == (v == 0),
            condition(op::ZSP, v) == ((v as i64) > 0),
            condition(op::ZSPI, v) == ((v as i64) > 0),
            condition(op::ZSOD, v) == (v % 2 == 1),
            condition(op::ZSODI, v) == (v % 2 == 1),
            condition(op::ZSNN, v) == ((v as i64) >= 0),
            condition(op::ZSNNI, v) == ((v as i64) >= 0),
            condition(op::ZSNZ, v) == (v != 0),
            condition(op::ZSNZI, v) == (v != 0),
            condition(op::ZSNP, v) == ((v as i64) <= 0),
            condition(op::ZSNPI, v) == ((v as i64) <= 0),
            condition(op::ZSEV, v) == (v % 2 == 0),
            condition(op::ZSEVI, v) == (v % 2 == 0),
{
    lemma_as_i64(v);
    lemma_bits_u64(v);
}

/// The arithmetic and bitwise instructions compute what their names say,
/// on `$Y` and `$Z` (or the byte Z), modulo 2^64: ADD and ADDU the sum,
/// SUB and SUBU the difference, 2ADDU .. 16ADDU the scaled sum, MUL the
/// product, and AND, OR, XOR, ANDN, ORN, NAND, NOR, NXOR their bitwise
/// functions.
pub proof fn lemma_step_arith(s: MachineState)
    requires
        !s.halted,
        !step_overflows(s),
        s.general.len() == 256,
        ({
            let op = current_inst(s).op;
            0x18 <= op <= 0x19 || 0x20 <= op <= 0x2F || 0xC0 <= op <= 0xCF
        }),
    ensures
        ({
            let i = current_inst(s);
            let y: u64 = s.general[i.y as int];
            let z: u64 = if i.op % 2 == 1 {
                i.z as u64
            } else {
                s.general[i.z as int]
            };
            let m: int = 0x1_0000_0000_0000_0000;
            let base = i.op / 2 * 2;
            let want: u64 = if base == op::MUL {
                ((y as int * z as int) % m) as u64
            } else if base == op::ADD || base == op::ADDU {
                ((y as int + z as int) % m) as u64
            } else if base == op::SUB || base == op::SUBU {
                ((y as int - z as int) % m) as u64
            } else if base == op::_2ADDU {
                ((2 * y as int + z as int) % m) as u64
            } else if base == op::_4ADDU {
                ((4 * y as int + z as int) % m) as u64
            } else if base == op::_8ADDU {
                ((8 * y as int + z as int) % m) as u64
            } else if base == op::_16ADDU {
                ((16 * y as int + z as int) % m) as u64
            } else if base == op::OR {
                y | z
            } else if base == op::ORN {
                y | !z
            } else if base == op::NOR {
                !(y | z)
            } else if base == op::XOR {
                y ^ z
            } else if base == op::AND {
                y & z
            } else if base == op::ANDN {
                y & !z
            } else if base == op::NAND {
                !(y & z)
            } else {
                !(y ^ z)
            };
            &&& step_spec(s) is Ok
            &&& stepped_state(s).general[i.x as int] == want
        }),
{
    let i = current_inst(s);
    let y = s.general[i.y as int];
    let z = operand_z(s, i);
    lemma_bits_u8(i.op);
    lemma_signed_product(y, z);
}

/// Inputs on which a step cannot be carried out: a cost counter that would
/// pass 2^64 - 1.
pub open spec fn step_overflows(s: MachineState) -> bool {
    let inst = current_inst(s);
    &&& !s.halted
    &&& execute(s, inst) is Ok
    &&& (s.oops + opcode_timing(inst.op).v > u64::MAX || s.mems + opcode_timing(inst.op).mu > u64::MAX)
}

// ---------------------------------------------------------------------------
// Facts about word arithmetic
// ---------------------------------------------------------------------------

proof fn lemma_wrap_shift(i: int, k: int)
    ensures
        wrap(i + k * two64()) == wrap(i),
{
    vstd::arithmetic::div_mod::lemma_mod_multiples_vanish(k, i, two64());
    assert(k * two64() + i == i + k * two64());
}

proof fn lemma_wrap_wrap(i: int, j: int)
    ensures
        wrap(wrap(i) + j) == wrap(i + j),
{
    vstd::arithmetic::div_mod::lemma_add_mod_noop(i, j, two64());
    vstd::arithmetic::div_mod::lemma_mod_twice(i, two64());
    vstd::arithmetic::div_mod::lemma_add_mod_noop(i % two64(), j, two64());
}

proof fn lemma_wrapping_add(a: u64, b: u64)
    ensures
        a.wrapping_add(b) == wrap(a + b),
{
    if a + b >= two64() {
        lemma_wrap_shift(a + b - two64(), 1);
        vstd::arithmetic::div_mod::lemma_small_mod((a + b - two64()) as nat, two64() as nat);
    } else {
        vstd::arithmetic::div_mod::lemma_small_mod((a + b) as nat, two64() as nat);
    }
}

proof fn lemma_wrapping_sub(a: u64, b: u64)
    ensures
        a.wrapping_sub(b) == wrap(a - b),
{
    if a - b < 0 {
        lemma_wrap_shift(a - b, 1);
        vstd::arithmetic::div_mod::lemma_small_mod((a - b + two64()) as nat, two64() as nat);
    } else {
        vstd::arithmetic::div_mod::lemma_small_mod((a - b) as nat, two64() as nat);
    }
}

proof fn lemma_wrapping_mul(a: u64, b: u64)
    ensures
        a.wrapping_mul(b) == wrap(a * b),
{
}

/// The low word of a product does not depend on reading the factors as
/// signed or unsigned.
proof fn lemma_signed_product(a: u64, b: u64)
    ensures
        wrap(signed(a) * signed(b)) == wrap(a * b),
{
    let m = two64();
    let ka: int = if a < 0x8000_0000_0000_0000 { 0 } else { 1 };
    let kb: int = if b < 0x8000_0000_0000_0000 { 0 } else { 1 };
    assert(signed(a) == a - ka * m);
    assert(signed(b) == b - kb * m);
    let k = ka * kb * m - ka * b - kb * a;
    assert((a - ka * m) * (b - kb * m) == a * b + k * m) by (nonlinear_arith)
        requires
            k == ka * kb * m - ka * b - kb * a,
    ;
    lemma_wrap_shift(a * b, k);
}

/// Casting a word to `i64` reads it as signed.
proof fn lemma_as_i64(v: u64)
    ensures
        (v as i64) as int == signed(v),
{
    if v >= 0x8000_0000_0000_0000 {
        assert(((v as i64) as int) + 0x1_0000_0000_0000_0000 == v as int) by (bit_vector)
            requires
                v >= 0x8000_0000_0000_0000u64,
        ;
    }
}

/// Casting an `i64` to a word reduces it modulo 2^64.
proof fn lemma_as_u64(i: i64)
    ensures
        i as u64 == wrap(i as int),
{
    if i < 0 {
        assert(((i as u64) as int) == (i as int) + 0x1_0000_0000_0000_0000) by (bit_vector)
            requires
                i < 0i64,
        ;
        lemma_wrap_shift(i as int, 1);
        vstd::arithmetic::div_mod::lemma_small_mod((i + two64()) as nat, two64() as nat);
    } else {
        vstd::arithmetic::div_mod::lemma_small_mod(i as nat, two64() as nat);
    }
}

/// The division rounding down differs from the one rounding toward zero
/// only where the remainder is not zero and its sign is not that of `b`:
/// there the quotient is one less and `b` is added to the remainder.
proof fn lemma_floor_from_trunc(a: int, b: int)
    requires
        b != 0,
        -vstd::math::abs(b) < trunc_rem(a, b) < vstd::math::abs(b),
    ensures
        ({
            let q0 = trunc_div(a, b);
            let r0 = trunc_rem(a, b);
            if r0 != 0 && ((r0 < 0) != (b < 0)) {
                floor_div(a, b) == q0 - 1 && floor_rem(a, b) == r0 + b
            } else {
                floor_div(a, b) == q0 && floor_rem(a, b) == r0
            }
        }),
{
    let q0 = trunc_div(a, b);
    let r0 = trunc_rem(a, b);
    assert(a == b * q0 + r0);
    if r0 != 0 && ((r0 < 0) != (b < 0)) {
        assert(a == b * (q0 - 1) + (r0 + b)) by (nonlinear_arith)
            requires
                a == b * q0 + r0,
        ;
        lemma_floor_exact(a, b, q0 - 1, r0 + b);
    } else {
        lemma_floor_exact(a, b, q0, r0);
    }
}

/// A quotient and remainder with `a == b * q + r` and the remainder between
/// 0 and `b` (excluding `b`) are those of the division rounding down.
proof fn lemma_floor_exact(a: int, b: int, q: int, r: int)
    requires
        b != 0,
        a == b * q + r,
        b > 0 ==> 0 <= r < b,
        b < 0 ==> b < r <= 0,
    ensures
        floor_div(a, b) == q,
        floor_rem(a, b) == r,
{
    if b > 0 {
        assert(a == q * b + r) by (nonlinear_arith)
            requires
                a == b * q + r,
        ;
        vstd::arithmetic::div_mod::lemma_fundamental_div_mod_converse(a, b, q, r);
    } else {
        assert(-a == q * (-b) + (-r)) by (nonlinear_arith)
            requires
                a == b * q + r,
        ;
        vstd::arithmetic::div_mod::lemma_fundamental_div_mod_converse(-a, -b, q, -r);
    }
}

/// Dividing the most negative word by -1 gives 2^63 with remainder 0.
proof fn lemma_floor_overflow(a: int, b: int)
    requires
        a == -0x8000_0000_0000_0000,
        b == -1,
    ensures
        floor_div(a, b) == 0x8000_0000_0000_0000,
        floor_rem(a, b) == 0,
{
    vstd::arithmetic::div_mod::lemma_div_basics(0x8000_0000_0000_0000);
}

/// `checked_div` and `checked_rem` round toward zero.
#[verifier::spinoff_prover]
#[verifier::rlimit(30)]
proof fn lemma_checked_div_rem(a: i64, b: i64)
    requires
        b != 0,
        !(a == i64::MIN && b == -1),
    ensures
        a.checked_div(b) == Some(trunc_div(a as int, b as int) as i64),
        a.checked_rem(b) == Some(trunc_rem(a as int, b as int) as i64),
        i64::MIN <= trunc_div(a as int, b as int) <= i64::MAX,
        i64::MIN <= trunc_rem(a as int, b as int) <= i64::MAX,
        -vstd::math::abs(b as int) < trunc_rem(a as int, b as int) < vstd::math::abs(b as int),
        trunc_rem(a as int, b as int) != 0 ==> i64::MIN < trunc_div(a as int, b as int),
{
    let x = a as int;
    let d = b as int;
    let ax = vstd::math::abs(x) as int;
    let ad = vstd::math::abs(d) as int;
    let q = ax / ad;
    let r = ax % ad;
    vstd::arithmetic::div_mod::lemma_fundamental_div_mod(ax, ad);
    assert(0 <= r < ad);
    assert(ax == ad * q + r);
    assert(0 <= q <= ax) by {
        vstd::arithmetic::div_mod::lemma_div_is_ordered_by_denominator(ax, 1, ad);
    }
    if x == 0 {
        assert(q == 0);
        assert(r == 0);
        assert(trunc_div(x, d) == q);
        assert(trunc_rem(x, d) == r);
    } else if x > 0 && d > 0 {
        assert(trunc_div(x, d) == q);
        assert(trunc_rem(x, d) == r);
    } else if x < 0 && d < 0 {
        assert(trunc_div(x, d) == q);
        assert(trunc_rem(x, d) == x - d * q);
        assert(x - d * q == -(ax - ad * q)) by (nonlinear_arith)
            requires
                x == -ax,
                d == -ad,
        ;
    } else if x < 0 {
        assert(trunc_rem(x, d) == x - d * (-q));
        assert(x - d * (-q) == -(ax - ad * q)) by (nonlinear_arith)
            requires
                x == -ax,
                d == ad,
        ;
    } else {
        assert(trunc_rem(x, d) == x - d * (-q));
        assert(x - d * (-q) == ax - ad * q) by (nonlinear_arith)
            requires
                x == ax,
                d == -ad,
        ;
    }
    assert(trunc_rem(x, d) == r || trunc_rem(x, d) == -r);
    assert(trunc_div(x, d) == q || trunc_div(x, d) == -q);
    if ad == 1 {
        assert(q == ax && r == 0) by {
            vstd::arithmetic::div_mod::lemma_div_basics(ax);
        }
    } else {
        assert(q < ax || ax == 0) by {
            if ax > 0 {
                vstd::arithmetic::div_mod::lemma_div_decreases(ax, ad);
            }
        }
    }
}


proof fn lemma_bits_u8(o: u8)
    ensures
        (o & 1 != 0) == (o % 2 == 1),
        ((o >> 1) & 7) as int == (o / 2) % 8,
{
    assert((o & 1 != 0) == (o % 2 == 1) && ((o >> 1) & 7) == (o / 2) % 8) by (bit_vector);
}

proof fn lemma_bits_u64(v: u64)
    by (bit_vector)
    ensures
        (v & 1 != 0) == (v % 2 == 1),
        (v as u8) as u64 == v % 0x100,
        (v as u16) as u64 == v % 0x1_0000,
        (v as u32) as u64 == v % 0x1_0000_0000,
        v << 0u64 == v,
{
}

proof fn lemma_shift_signed(a: u64, b: u64)
    by (bit_vector)
    requires
        b < 64,
    ensures
        ((a as i64) >> b) as u64 == shift_right_signed(a, b),
{
}

proof fn lemma_sign_extend_casts(b: u8, w: u16, t: u32)
    by (bit_vector)
    ensures
        b as i8 as i64 as u64 == if b < 128 { b as u64 } else { (b as u64 + 0xFFFF_FFFF_FFFF_FF00u64) as u64 },
        w as i16 as i64 as u64 == if w < 0x8000 { w as u64 } else { (w as u64 + 0xFFFF_FFFF_FFFF_0000u64) as u64 },
        t as i32 as i64 as u64 == if t < 0x8000_0000 { t as u64 } else { (t as u64 + 0xFFFF_FFFF_0000_0000u64) as u64 },
{
}

proof fn lemma_u128_halves(p: u128, hi: u64, lo: u64)
    by (bit_vector)
    ensures
        (p as u64) as u128 == p % 0x1_0000_0000_0000_0000u128,
        p >> 64u128 == p / 0x1_0000_0000_0000_0000u128,
        ((p >> 64u128) as u64) as u128 == p >> 64u128,
        ((hi as u128) << 64u128) | (lo as u128) == hi as u128 * 0x1_0000_0000_0000_0000u128 + lo as u128,
{
}

proof fn lemma_low_high(p: u128)
    ensures
        (p as u64) as int == p as int % two64(),
        ((p >> 64u128) as u64) as int == p as int / two64(),
{
    lemma_u128_halves(p, 0, 0);
}

// ---------------------------------------------------------------------------
// Execution
// ---------------------------------------------------------------------------

/// Whether the condition that bits 1..3 of `op` select holds of `v`.
fn condition_holds(op: u8, v: u64) -> (r: bool)
    ensures
        r == condition(op, v),
{
    let neg = v >= 0x8000_0000_0000_0000;
    proof {
        lemma_bits_u8(op);
        lemma_bits_u64(v);
    }
    match (op >> 1) & 7 {
        0 => neg,
        1 => v == 0,
        2 => !neg && v != 0,
        3 => v & 1 != 0,
        4 => !neg,
        5 => v != 0,
        6 => neg || v == 0,
        _ => v & 1 == 0,
    }
}

impl Machine {
    /// `$Z`, or the immediate Z for odd opcodes.
    fn operand_z(&self, inst: RawInst) -> (b: u64)
        ensures
            b == operand_z(self@, inst),
    {
        let o = inst.op;
        proof {
            lemma_bits_u8(o);
        }
        if o & 1 != 0 {
            inst.z as u64
        } else {
            self.general.get(inst.z)
        }
    }

    fn calc_addr(&self, y: u8, z: u8, is_imm: bool) -> (addr: u64)
        ensures
            addr == wrap(self@.general[y as int] + (if is_imm { z as u64 } else { self@.general[z as int] })),
    {
        let base = self.general.get(y);
        let offset = if is_imm {
            z as u64
        } else {
            self.general.get(z)
        };
        proof {
            lemma_wrapping_add(base, offset);
        }
        base.wrapping_add(offset)
    }

    fn branch_offset(&self, inst: &RawInst) -> (off: i64)
        ensures
            off as int == branch_offset(*inst),
    {
        let raw = inst.yz() as u64;
        let o = inst.op;
        let is_backward = o & 1 != 0;
        proof {
            lemma_bits_u8(o);
        }
        if is_backward {
            -((0x10000 - raw as i64) * 4)
        } else {
            (raw as i64) * 4
        }
    }

    fn jump_offset(&self, inst: &RawInst) -> (off: i64)
        ensures
            off as int == jump_offset(*inst),
    {
        let raw = (inst.x as i64) * 0x10000 + (inst.yz() as i64);
        let o = inst.op;
        proof {
            lemma_bits_u8(o);
        }
        if o & 1 != 0 {
            -((0x100_0000 - raw) * 4)
        } else {
            raw * 4
        }
    }

    fn jump_target(&self, pc: u64, inst: &RawInst) -> (t: u64)
        requires
            pc == self@.pc,
        ensures
            t == jump_target(self@, *inst),
    {
        let offset = self.jump_offset(inst);
        let t = pc.wrapping_add(offset as u64);
        proof {
            lemma_as_u64(offset);
            lemma_wrapping_add(pc, offset as u64);
            lemma_wrap_wrap(offset as int, pc as int);
            assert(offset as int + pc as int == pc as int + offset as int);
        }
        t
    }

    fn branch_target(&self, pc: u64, inst: &RawInst) -> (t: u64)
        requires
            pc == self@.pc,
        ensures
            t == branch_target(self@, *inst),
    {
        let offset = self.branch_offset(inst);
        let t = pc.wrapping_add(offset as u64);
        proof {
            lemma_as_u64(offset);
            lemma_wrapping_add(pc, offset as u64);
            lemma_wrap_wrap(offset as int, pc as int);
            assert(offset as int + pc as int == pc as int + offset as int);
        }
        t
    }

    /// The value of an arithmetic, shift, logic or zero-or-set instruction.
    fn alu(&self, inst: RawInst) -> (v: u64)
        requires
            is_alu_op(inst.op),
        ensures
            v == alu_value(self@, inst),
    {
        let a = self.general.get(inst.y);
        let b = self.operand_z(inst);
        let ghost s = self@;
        assert(a == reg(s, inst.y));
        match inst.op {
            op::MUL | op::MULI => {
                proof {
                    lemma_wrapping_mul(a, b);
                    lemma_signed_product(a, b);
                }
                a.wrapping_mul(b)
            },
            op::ADD | op::ADDI | op::ADDU | op::ADDUI => {
                proof {
                    lemma_wrapping_add(a, b);
                }
                a.wrapping_add(b)
            },
            op::SUB | op::SUBI | op::SUBU | op::SUBUI => {
                proof {
                    lemma_wrapping_sub(a, b);
                }
                a.wrapping_sub(b)
            },
            op::_2ADDU | op::_2ADDUI => {
                proof {
                    lemma_wrapping_mul(a, 2);
                    lemma_wrapping_add(a.wrapping_mul(2), b);
                    lemma_wrap_wrap(a * 2, b as int);
                }
                a.wrapping_mul(2).wrapping_add(b)
            },
            op::_4ADDU | op::_4ADDUI => {
                proof {
                    lemma_wrapping_mul(a, 4);
                    lemma_wrapping_add(a.wrapping_mul(4), b);
                    lemma_wrap_wrap(a * 4, b as int);
                }
                a.wrapping_mul(4).wrapping_add(b)
            },
            op::_8ADDU | op::_8ADDUI => {
                proof {
                    lemma_wrapping_mul(a, 8);
                    lemma_wrapping_add(a.wrapping_mul(8), b);
                    lemma_wrap_wrap(a * 8, b as int);
                }
                a.wrapping_mul(8).wrapping_add(b)
            },
            op::_16ADDU | op::_16ADDUI => {
                proof {
                    lemma_wrapping_mul(a, 16);
                    lemma_wrapping_add(a.wrapping_mul(16), b);
                    lemma_wrap_wrap(a * 16, b as int);
                }
                a.wrapping_mul(16).wrapping_add(b)
            },
            op::CMP | op::CMPI => {
                proof {
                    lemma_as_i64(a);
                    lemma_as_i64(b);
                    lemma_as_u64(-1i64);
                }
                let (sa, sb) = (a as i64, b as i64);
                if sa < sb {
                    -1i64 as u64
                } else if sa > sb {
                    1
                } else {
                    0
                }
            },
            op::CMPU | op::CMPUI => {
                proof {
                    lemma_as_u64(-1i64);
                }
                if a < b {
                    -1i64 as u64
                } else if a > b {
                    1
                } else {
                    0
                }
            },
            op::NEG | op::NEGI | op::NEGU | op::NEGUI => {
                let y_val = inst.y as u64;
                proof {
                    lemma_wrapping_sub(y_val, b);
                }
                y_val.wrapping_sub(b)
            },
            op::SL | op::SLI | op::SLU | op::SLUI => {
                if b >= 64 {
                    0
                } else {
                    a << b
                }
            },
            op::SR | op::SRI => {
                if b >= 64 {
                    if a < 0x8000_0000_0000_0000 {
                        0
                    } else {
                        0xFFFF_FFFF_FFFF_FFFF
                    }
                } else {
                    proof {
                        lemma_shift_signed(a, b);
                    }
                    ((a as i64) >> b) as u64
                }
            },
            op::SRU | op::SRUI => {
                if b >= 64 {
                    0
                } else {
                    a >> b
                }
            },
            op::OR | op::ORI => a | b,
            op::ORN | op::ORNI => a | !b,
            op::NOR | op::NORI => !(a | b),
            op::XOR | op::XORI => a ^ b,
            op::AND | op::ANDI => a & b,
            op::ANDN | op::ANDNI => a & !b,
            op::NAND | op::NANDI => !(a & b),
            op::NXOR | op::NXORI => !(a ^ b),
            _ => {
                // zero or set: ZSN ..= ZSEVI
                if condition_holds(inst.op, a) {
                    b
                } else {
                    0
                }
            },
        }
    }
}

impl Machine {
    /// The value that a load instruction puts in `$X`.
    fn load(&self, inst: RawInst) -> (v: u64)
        requires
            0x80 <= inst.op <= 0x8F,
        ensures
            v == load_value(self@, inst),
    {
        let is_imm = inst.op & 1 != 0;
        let o = inst.op;
        proof {
            lemma_bits_u8(o);
        }
        let addr = self.calc_addr(inst.y, inst.z, is_imm);
        assert(addr == effective_addr(self@, inst));
        proof {
            vstd::arithmetic::power2::lemma2_to64();
        }
        match inst.op {
            op::LDB | op::LDBI => {
                let b = self.memory.read_u8(addr);
                let v = b as i8 as i64 as u64;
                proof {
                    lemma_sign_extend_casts(b, 0, 0);
                }
                v
            },
            op::LDBU | op::LDBUI => self.memory.read_u8(addr) as u64,
            op::LDW | op::LDWI => {
                let w = self.memory.read_u16(addr);
                let v = w as i16 as i64 as u64;
                proof {
                    lemma_sign_extend_casts(0, w, 0);
                }
                v
            },
            op::LDWU | op::LDWUI => self.memory.read_u16(addr) as u64,
            op::LDT | op::LDTI => {
                let t = self.memory.read_u32(addr);
                let v = t as i32 as i64 as u64;
                proof {
                    lemma_sign_extend_casts(0, 0, t);
                }
                v
            },
            op::LDTU | op::LDTUI => self.memory.read_u32(addr) as u64,
            _ => self.memory.read_u64(addr),
        }
    }

    /// Carries out a store instruction.
    fn store(&mut self, inst: RawInst)
        requires
            0xA0 <= inst.op <= 0xAF,
        ensures
            final(self)@ == (MachineState { memory: store_result(old(self)@, inst), ..old(self)@ }),
    {
        let is_imm = inst.op & 1 != 0;
        let o = inst.op;
        proof {
            lemma_bits_u8(o);
        }
        let addr = self.calc_addr(inst.y, inst.z, is_imm);
        assert(addr == effective_addr(self@, inst));
        let v = self.general.get(inst.x);
        proof {
            lemma_bits_u64(v);
        }
        match inst.op {
            op::STB | op::STBI | op::STBU | op::STBUI => self.memory.write_u8(addr, v as u8),
            op::STW | op::STWI | op::STWU | op::STWUI => self.memory.write_u16(addr, v as u16),
            op::STT | op::STTI | op::STTU | op::STTUI => self.memory.write_u32(addr, v as u32),
            _ => self.memory.write_u64(addr, v),
        }
    }

    /// The value that a wyde-immediate instruction puts in `$X`.
    fn wyde(&self, inst: RawInst) -> (r: u64)
        requires
            0xE0 <= inst.op <= 0xEF,
        ensures
            r == wyde_value(self@, inst),
    {
        let yz = inst.yz() as u64;
        let v = self.general.get(inst.x);
        proof {
            lemma_bits_u64(yz);
        }
        proof {
            lemma_wrapping_add(v, yz << 48u64);
            lemma_wrapping_add(v, yz << 32u64);
            lemma_wrapping_add(v, yz << 16u64);
            lemma_wrapping_add(v, yz);
        }
        match inst.op {
            op::SETH => yz << 48,
            op::SETMH => yz << 32,
            op::SETML => yz << 16,
            op::SETL => yz,
            op::INCH => v.wrapping_add(yz << 48),
            op::INCMH => v.wrapping_add(yz << 32),
            op::INCML => v.wrapping_add(yz << 16),
            op::INCL => v.wrapping_add(yz),
            op::ORH => v | (yz << 48),
            op::ORMH => v | (yz << 32),
            op::ORML => v | (yz << 16),
            op::ORL => v | yz,
            op::ANDNH => v & !(yz << 48),
            op::ANDNMH => v & !(yz << 32),
            op::ANDNML => v & !(yz << 16),
            _ => v & !yz,
        }
    }

    /// Carries out `TRAP X,Y,Z`: Halt (0,0,0) and Fputs of the string at
    /// `$255` (0,1,1) are implemented.
    fn handle_trap(&mut self, inst: RawInst, next: u64) -> (r: Result<(), StepError>)
        requires
            inst.op == op::TRAP,
            next == next_pc(old(self)@),
        ensures
            match r {
                Ok(()) => trap_result(old(self)@, inst) == Ok::<MachineState, StepError>(final(self)@),
                Err(e) => trap_result(old(self)@, inst) == Err::<MachineState, StepError>(e) && final(self)@ == old(self)@,
            },
    {
        let (x, y, z) = (inst.x, inst.y, inst.z);
        if x == 0 && y == 0 && z == 0 {
            self.halted = true;
            self.pc = next;
            Ok(())
        } else if x == 0 && y == 1 && z == 1 {
            let mut addr = self.general.get(255);
            let limit = self.memory.written_len() as u128;
            let ghost m = self.memory@;
            let ghost out0 = self.output_buffer@;
            let ghost fuel: nat = m.len() + 1;
            let ghost text = c_string(m, addr, fuel);
            let mut count: u128 = 0;
            while count <= limit
                invariant
                    self.memory@ == m,
                    limit == m.len(),
                    count <= limit + 1,
                    limit < 0x1_0000_0000_0000_0000,
                    fuel == m.len() + 1,
                    out0 + text == self.output_buffer@ + c_string(m, addr, (fuel - count) as nat),
                    self.special == old(self).special,
                    self.general@ == old(self).general@,
                    self.halted == old(self).halted,
                    self.pc == old(self).pc,
                    self.oops == old(self).oops,
                    self.mems == old(self).mems,
            ensures
                count == limit + 1 || byte_at(m, addr) == 0,
                out0 + text == self.output_buffer@ + c_string(m, addr, (fuel - count) as nat),
                count <= limit + 1,
                fuel == m.len() + 1,
            decreases limit + 1 - count,
            {
                let ch = self.memory.read_u8(addr);
                if ch == 0 {
                    break;
                }
                proof {
                    lemma_wrapping_add(addr, 1);
                    let f = (fuel - count) as nat;
                    assert(f > 0);
                    let rest = c_string(m, wrap(addr + 1), (f - 1) as nat);
                    assert(c_string(m, addr, f) == seq![byte_at(m, addr)] + c_string(m, wrap(addr + 1), (f - 1) as nat));
                    assert((f - 1) as nat == (fuel - (count + 1)) as nat);
                    assert(c_string(m, addr, (fuel - count) as nat) == seq![ch] + rest);
                    assert(self.output_buffer@.push(ch) + rest =~= self.output_buffer@ + (seq![ch] + rest));
                }
                self.output_buffer.push(ch);
                addr = addr.wrapping_add(1);
                count = count + 1;
            }
            proof {
                assert(c_string(m, addr, (fuel - count) as nat) =~= Seq::<u8>::empty());
                assert(self.output_buffer@ + Seq::<u8>::empty() =~= self.output_buffer@);
            }
            self.pc = next;
            Ok(())
        } else {
            Err(StepError::UnimplementedTrap(x, y, z))
        }
    }

    /// Executes one decoded instruction and moves the program counter on.
    fn execute_inst(&mut self, inst: RawInst, next: u64) -> (r: Result<(), StepError>)
        requires
            next == next_pc(old(self)@),
        ensures
            match r {
                Ok(()) => execute(old(self)@, inst) == Ok::<MachineState, StepError>(final(self)@),
                Err(e) => execute(old(self)@, inst) == Err::<MachineState, StepError>(e) && final(self)@ == old(self)@,
            },
    {
        let ghost s = self@;
        let pc = self.pc;
        let op = inst.op;
        let is_imm = op & 1 != 0;
        proof {
            lemma_bits_u8(op);
        }
        if op == 0x18 || op == 0x19 || (0x20 <= op && op <= 0x3F) || (0xC0 <= op && op <= 0xCF) || (0x70
            <= op && op <= 0x7F) {
            let v = self.alu(inst);
            self.general.set(inst.x, v);
            self.pc = next;
            return Ok(());
        }
        if op == op::DIV || op == op::DIVI {
            let a = self.general.get(inst.y);
            let bz = self.operand_z(inst);
            proof {
                lemma_as_i64(a);
                lemma_as_i64(bz);
            }
            let (sa, sb) = (a as i64, bz as i64);
            if sb == 0 {
                self.general.set(inst.x, 0);
                self.special.set(SpecialRegister::Rr, a);
            } else if sa == i64::MIN && sb == -1 {
                // The quotient 2^63 does not fit; it wraps to $Y itself.
                proof {
                    lemma_floor_overflow(sa as int, sb as int);
                }
                self.general.set(inst.x, a);
                self.special.set(SpecialRegister::Rr, 0);
            } else {
                proof {
                    lemma_checked_div_rem(sa, sb);
                }
                let q0 = match sa.checked_div(sb) {
                    Some(q) => q,
                    None => 0,
                };
                let r0 = match sa.checked_rem(sb) {
                    Some(rem) => rem,
                    None => 0,
                };
                let (q, rem) = if r0 != 0 && ((r0 < 0) != (sb < 0)) {
                    (q0 - 1, r0 + sb)
                } else {
                    (q0, r0)
                };
                proof {
                    lemma_floor_from_trunc(sa as int, sb as int);
                    lemma_as_u64(q);
                    lemma_as_u64(rem);
                }
                self.general.set(inst.x, q as u64);
                self.special.set(SpecialRegister::Rr, rem as u64);
            }
            self.pc = next;
            return Ok(());
        }
        if op == op::MULU || op == op::MULUI {
            let a = self.general.get(inst.y);
            let b = self.operand_z(inst);
            assert(a as int * b as int <= 0xFFFF_FFFF_FFFF_FFFF * 0xFFFF_FFFF_FFFF_FFFF) by (nonlinear_arith)
                requires
                    a <= 0xFFFF_FFFF_FFFF_FFFFu64,
                    b <= 0xFFFF_FFFF_FFFF_FFFFu64,
            ;
            let product = (a as u128) * (b as u128);
            proof {
                lemma_low_high(product);
            }
            self.general.set(inst.x, product as u64);
            self.special.set(SpecialRegister::Rh, (product >> 64) as u64);
            self.pc = next;
            return Ok(());
        }
        if op == op::DIVU || op == op::DIVUI {
            let a_hi = self.special.get(SpecialRegister::Rd);
            let a_lo = self.general.get(inst.y);
            let b = self.operand_z(inst);
            if a_hi >= b {
                self.general.set(inst.x, a_hi);
                self.special.set(SpecialRegister::Rr, a_lo);
            } else {
                let dividend = ((a_hi as u128) << 64) | (a_lo as u128);
                proof {
                    lemma_u128_halves(0, a_hi, a_lo);
                }
                let divisor = b as u128;
                let ghost n = a_hi as int * two64() + a_lo as int;
                assert(n / (b as int) < two64() && n % (b as int) < two64()) by {
                    assert(n < b as int * two64()) by (nonlinear_arith)
                        requires
                            n == a_hi as int * two64() + a_lo as int,
                            (a_hi as int) < (b as int),
                            (a_lo as int) < two64(),
                            two64() > 0,
                    ;
                    vstd::arithmetic::div_mod::lemma_div_by_multiple_is_strongly_ordered(n, b as int * two64(), two64(), b as int);
                    vstd::arithmetic::div_mod::lemma_div_by_multiple(two64(), b as int);
                    assert(b as int * two64() == two64() * b as int) by (nonlinear_arith);
                }
                self.general.set(inst.x, (dividend / divisor) as u64);
                self.special.set(SpecialRegister::Rr, (dividend % divisor) as u64);
            }
            self.pc = next;
            return Ok(());
        }
        if 0x80 <= op && op <= 0x8F {
            let v = self.load(inst);
            self.general.set(inst.x, v);
            self.pc = next;
            return Ok(());
        }
        if 0xA0 <= op && op <= 0xAF {
            self.store(inst);
            self.pc = next;
            return Ok(());
        }
        if 0xE0 <= op && op <= 0xEF {
            let v = self.wyde(inst);
            self.general.set(inst.x, v);
            self.pc = next;
            return Ok(());
        }
        if 0x40 <= op && op <= 0x4F {
            if condition_holds(op, self.general.get(inst.x)) {
                self.pc = self.branch_target(pc, &inst);
            } else {
                self.pc = next;
            }
            return Ok(());
        }
        if op == op::JMP || op == op::JMPB {
            self.pc = self.jump_target(pc, &inst);
            return Ok(());
        }
        if op == op::GO || op == op::GOI {
            let addr = self.calc_addr(inst.y, inst.z, is_imm);
            self.general.set(inst.x, next);
            self.pc = addr;
            return Ok(());
        }
        if op == op::GETA || op == op::GETAB {
            let t = self.branch_target(pc, &inst);
            self.general.set(inst.x, t);
            self.pc = next;
            return Ok(());
        }
        if 0x60 <= op && op <= 0x6F {
            if condition_holds(op, self.general.get(inst.y)) {
                let b = self.operand_z(inst);
                self.general.set(inst.x, b);
            }
            self.pc = next;
            return Ok(());
        }
        if op == op::GET {
            match SpecialRegister::from_encoding(inst.z) {
                Some(sr) => {
                    let v = self.special.get(sr);
                    self.general.set(inst.x, v);
                    self.pc = next;
                    return Ok(());
                },
                None => {
                    return Err(StepError::InvalidGet(inst.z));
                },
            }
        }
        if op == op::PUT || op == op::PUTI {
            match SpecialRegister::from_encoding(inst.x) {
                Some(sr) => {
                    let val = self.operand_z(inst);
                    self.special.set(sr, val);
                    self.pc = next;
                    return Ok(());
                },
                None => {
                    return Err(StepError::InvalidPut(inst.x));
                },
            }
        }
        if op == op::TRAP {
            return self.handle_trap(inst, next);
        }
        Err(StepError::UnimplementedOpcode { op, pc })
    }

    /// Fetches, decodes and executes the instruction at the program counter,
    /// then adds its cost to the counters.
    pub fn step(&mut self) -> (r: Result<(), StepError>)
        requires
            !step_overflows(old(self)@),
        ensures
            match r {
                Ok(()) => step_spec(old(self)@) == Ok::<MachineState, StepError>(final(self)@),
                Err(e) => step_spec(old(self)@) == Err::<MachineState, StepError>(e) && final(self)@ == old(self)@,
            },
    {
        if self.halted {
            return Err(StepError::Halted);
        }
        let pc = self.pc;
        let word = self.memory.read_u32(pc);
        let inst = RawInst::decode(word);
        assert(inst == current_inst(self@));
        let next = pc.wrapping_add(4);
        proof {
            lemma_wrapping_add(pc, 4);
        }
        match self.execute_inst(inst, next) {
            Err(e) => {
                return Err(e);
            },
            Ok(()) => {},
        }
        let t = timing(inst.op);
        self.oops = self.oops + t.v;
        self.mems = self.mems + t.mu;
        Ok(())
    }
}

/// Whether executing `inst` fails (see [`execute`]).
fn execution_fails(s: &Machine, inst: RawInst) -> (r: bool)
    ensures
        r == execute(s@, inst) is Err,
{
    let op = inst.op;
    if op == 0x18 || op == 0x19 || (0x20 <= op && op <= 0x3F) || (0xC0 <= op && op <= 0xCF) || (0x70
        <= op && op <= 0x7F) {
        return false;
    }
    if op == op::DIV || op == op::DIVI || op == op::MULU || op == op::MULUI || op == op::DIVU || op
        == op::DIVUI || (0x80 <= op && op <= 0x8F) || (0xA0 <= op && op <= 0xAF) || (0xE0 <= op && op
        <= 0xEF) || (0x40 <= op && op <= 0x4F) || op == op::JMP || op == op::JMPB || op == op::GO || op
        == op::GOI || op == op::GETA || op == op::GETAB || (0x60 <= op && op <= 0x6F) {
        return false;
    }
    if op == op::GET {
        return SpecialRegister::from_encoding(inst.z).is_none();
    }
    if op == op::PUT || op == op::PUTI {
        return SpecialRegister::from_encoding(inst.x).is_none();
    }
    if op == op::TRAP {
        return !((inst.x == 0 && inst.y == 0 && inst.z == 0) || (inst.x == 0 && inst.y == 1 && inst.z
            == 1));
    }
    true
}

impl Machine {
    /// Whether the next step would overflow (see [`step_overflows`]).
    pub fn would_overflow(&self) -> (r: bool)
        ensures
            r == step_overflows(self@),
    {
        if self.halted {
            return false;
        }
        let inst = RawInst::decode(self.memory.read_u32(self.pc));
        assert(inst == current_inst(self@));
        if execution_fails(self, inst) {
            return false;
        }
        let t = timing(inst.op);
        self.oops as u128 + t.v as u128 > 0xFFFF_FFFF_FFFF_FFFFu128 || self.mems as u128 + t.mu as u128
            > 0xFFFF_FFFF_FFFF_FFFFu128
    }
}

/// The machine started in `s` halts, or meets an error, within `fuel` steps,
/// and none of those steps overflows.
pub open spec fn stops_within(s: MachineState, fuel: nat) -> bool
    decreases fuel,
{
    if s.halted {
        true
    } else if fuel == 0 || step_overflows(s) {
        false
    } else {
        match step_spec(s) {
            Err(_) => true,
            Ok(s2) => stops_within(s2, (fuel - 1) as nat),
        }
    }
}

/// The final state and outcome of running from `s` for at most `fuel` steps.
pub open spec fn run_result(s: MachineState, fuel: nat) -> (MachineState, Result<(), StepError>)
    decreases fuel,
{
    if s.halted || fuel == 0 {
        (s, Ok(()))
    } else {
        match step_spec(s) {
            Err(e) => (s, Err(e)),
            Ok(s2) => run_result(s2, (fuel - 1) as nat),
        }
    }
}

/// A run that stops gives the same result however much more fuel it gets.
pub proof fn lemma_run_result_fuel(s: MachineState, f1: nat, f2: nat)
    requires
        stops_within(s, f1),
        f1 <= f2,
    ensures
        stops_within(s, f2),
        run_result(s, f1) == run_result(s, f2),
    decreases f1,
{
    if !s.halted {
        match step_spec(s) {
            Err(_) => {},
            Ok(s2) => {
                lemma_run_result_fuel(s2, (f1 - 1) as nat, (f2 - 1) as nat);
            },
        }
    }
}

/// Any two amounts of fuel that suffice give the same run.
pub proof fn lemma_run_result_unique(s: MachineState, f1: nat, f2: nat)
    requires
        stops_within(s, f1),
        stops_within(s, f2),
    ensures
        run_result(s, f1) == run_result(s, f2),
{
    if f1 <= f2 {
        lemma_run_result_fuel(s, f1, f2);
    } else {
        lemma_run_result_fuel(s, f2, f1);
    }
}

impl Machine {
    /// Runs until the machine halts or a step fails.
    pub fn run(&mut self) -> (r: Result<(), StepError>)
        requires
            exists|fuel: nat| stops_within(old(self)@, fuel),
        ensures
            forall|fuel: nat| #[trigger] stops_within(old(self)@, fuel) ==> run_result(old(self)@, fuel) == (
            final(self)@, r),
    {
        let ghost f0: nat = choose|fuel: nat| stops_within(old(self)@, fuel);
        let ghost s0 = self@;
        let ghost mut f: nat = f0;
        while !self.halted
            invariant
                stops_within(self@, f),
                stops_within(s0, f0),
                s0 == old(self)@,
                run_result(s0, f0) == run_result(self@, f),
            decreases f,
        {
            match self.step() {
                Err(e) => {
                    proof {
                        assert(f > 0);
                        assert(run_result(self@, f) == (self@, Err::<(), StepError>(e)));
                        assert forall|fuel: nat| #[trigger] stops_within(s0, fuel) implies run_result(s0, fuel)
                            == (self@, Err::<(), StepError>(e)) by {
                            lemma_run_result_unique(s0, fuel, f0);
                        }
                    }
                    return Err(e);
                },
                Ok(()) => {},
            }
            proof {
                f = (f - 1) as nat;
            }
        }
        proof {
            assert forall|fuel: nat| #[trigger] stops_within(s0, fuel) implies run_result(s0, fuel) == (
            self@, Ok::<(), StepError>(())) by {
                lemma_run_result_unique(s0, fuel, f0);
            }
        }
        Ok(())
    }
}

} // verus!
