//! Instruction encoding: the mnemonic table, aliases, and the operand
//! grammar of each operand format.

use crate::assembler::AssembleError;
use crate::op;
use crate::opcodes::{name, opcode_format, opcode_name, OperandFormat};
use crate::parse::{
    parse_number, parse_reg, parse_reg_or_imm, parse_reg_or_imm_with_labels, parse_special_reg,
    resolve_label_or_number, spec_parse_number, spec_parse_reg, spec_parse_reg_or_imm,
    spec_parse_reg_or_imm_with_labels, spec_parse_special_reg, spec_resolve, starts_with,
    SymbolTable,
};
use crate::text::{decimal, push_decimal, push_str, str_eq_chars, trim, trim_chars};
use vstd::prelude::*;

verus! {

/// How an alias mnemonic becomes a real instruction.
#[derive(Debug, Clone, Copy, PartialEq, Eq, Structural)]
pub enum AliasLowering {
    /// Always the same opcode and operand format.
    Direct { target_op: u8, format: OperandFormat },
    /// A register second operand selects `reg_op $X,$Y,reg_fixed_z`;
    /// anything else selects `imm_op` read in `imm_format`.
    BySecondOperand { reg_op: u8, reg_fixed_z: u8, imm_op: u8, imm_format: OperandFormat },
}

/// What a mnemonic stands for.
#[derive(Debug, Clone, Copy, PartialEq, Eq, Structural)]
pub enum InstrEntry {
    Real { base_op: u8, format: OperandFormat },
    Alias(AliasLowering),
}

/// Formats whose immediate (or backward) variant is the next opcode; the
/// odd opcode of such a pair has no mnemonic of its own in the assembler.
pub open spec fn auto_suffix(f: OperandFormat) -> bool {
    match f {
        OperandFormat::ThreeReg | OperandFormat::NegStyle | OperandFormat::Branch
        | OperandFormat::Jump | OperandFormat::Put | OperandFormat::PushJ => true,
        _ => false,
    }
}

fn is_auto_suffix(f: OperandFormat) -> (r: bool)
    ensures
        r == auto_suffix(f),
{
    match f {
        OperandFormat::ThreeReg | OperandFormat::NegStyle | OperandFormat::Branch
        | OperandFormat::Jump | OperandFormat::Put | OperandFormat::PushJ => true,
        _ => false,
    }
}

/// Whether the assembler accepts an opcode's own name as a mnemonic.
pub open spec fn listed(i: u8) -> bool {
    !(i % 2 == 1 && auto_suffix(opcode_format(i)))
}

/// The first opcode from `i` on whose name is `m`; `listed` says whether
/// only the opcodes the assembler lists count.
pub open spec fn find_opcode(m: Seq<char>, i: int, only_listed: bool) -> Option<u8>
    decreases 256 - i,
{
    if i < 0 || i >= 256 {
        None
    } else if opcode_name(i as u8)@ == m && (!only_listed || listed(i as u8)) {
        Some(i as u8)
    } else {
        find_opcode(m, i + 1, only_listed)
    }
}

/// The lowering of `LDA`.
pub open spec fn lda_lowering() -> AliasLowering {
    AliasLowering::Direct { target_op: op::ADDU, format: OperandFormat::ThreeReg }
}

/// The lowering of `SET`.
pub open spec fn set_lowering() -> AliasLowering {
    AliasLowering::BySecondOperand {
        reg_op: op::ORI,
        reg_fixed_z: 0,
        imm_op: op::SETL,
        imm_format: OperandFormat::RegImm16,
    }
}

/// What an (upper-case) mnemonic stands for, if anything.
pub open spec fn spec_lookup(m: Seq<char>) -> Option<InstrEntry> {
    if m == "LDA"@ {
        Some(InstrEntry::Alias(lda_lowering()))
    } else if m == "SET"@ {
        Some(InstrEntry::Alias(set_lowering()))
    } else {
        match find_opcode(m, 0, true) {
            Some(i) => Some(InstrEntry::Real { base_op: i, format: opcode_format(i) }),
            None => None,
        }
    }
}

/// Whether a word is a mnemonic, an alias or a directive, so that it never
/// reads as a label.
pub open spec fn spec_is_mnemonic(m: Seq<char>) -> bool {
    spec_lookup(m) is Some || find_opcode(m, 0, false) is Some || m == "LOC"@ || m == "IS"@ || m
        == "BYTE"@ || m == "WYDE"@ || m == "TETRA"@ || m == "OCTA"@
}

/// The opcodes the assembler lists are the only ones the scan finds.
pub proof fn lemma_find_opcode_listed(m: Seq<char>, i: int)
    ensures
        find_opcode(m, i, true) matches Some(o) ==> listed(o),
    decreases 256 - i,
{
    if 0 <= i < 256 {
        lemma_find_opcode_listed(m, i + 1);
    }
}

/// Every entry of the mnemonic table can be encoded: where a format may
/// need the next opcode, there is one.
pub proof fn lemma_lookup_encodable(m: Seq<char>)
    ensures
        spec_lookup(m) matches Some(InstrEntry::Real { base_op, format }) ==> has_next_op(
            base_op,
            format,
        ),
        spec_lookup(m) matches Some(InstrEntry::Alias(l)) ==> lowering_ok(l),
{
    lemma_find_opcode_listed(m, 0);
}

/// Scans the opcode table for the name `m`.
fn find_opcode_exec(m: &[char], only_listed: bool) -> (r: Option<u8>)
    ensures
        r == find_opcode(m@, 0, only_listed),
{
    let mut i: u16 = 0;
    while i < 256
        invariant
            i <= 256,
            find_opcode(m@, 0, only_listed) == find_opcode(m@, i as int, only_listed),
        decreases 256 - i,
    {
        let b = i as u8;
        if str_eq_chars(name(b), m) && (!only_listed || !(b % 2 == 1 && is_auto_suffix(crate::opcodes::format(b)))) {
            return Some(b);
        }
        i = i + 1;
    }
    None
}

/// What an upper-case mnemonic stands for.
pub fn lookup_mnemonic(m: &[char]) -> (r: Option<InstrEntry>)
    ensures
        r == spec_lookup(m@),
{
    if str_eq_chars("LDA", m) {
        Some(InstrEntry::Alias(AliasLowering::Direct { target_op: op::ADDU, format: OperandFormat::ThreeReg }))
    } else if str_eq_chars("SET", m) {
        Some(
            InstrEntry::Alias(
                AliasLowering::BySecondOperand {
                    reg_op: op::ORI,
                    reg_fixed_z: 0,
                    imm_op: op::SETL,
                    imm_format: OperandFormat::RegImm16,
                },
            ),
        )
    } else {
        match find_opcode_exec(m, true) {
            Some(i) => Some(InstrEntry::Real { base_op: i, format: crate::opcodes::format(i) }),
            None => None,
        }
    }
}

/// Whether an upper-case word is a mnemonic, alias or directive.
pub fn is_mnemonic(m: &[char]) -> (r: bool)
    ensures
        r == spec_is_mnemonic(m@),
{
    lookup_mnemonic(m).is_some() || find_opcode_exec(m, false).is_some() || str_eq_chars("LOC", m)
        || str_eq_chars("IS", m) || str_eq_chars("BYTE", m) || str_eq_chars("WYDE", m)
        || str_eq_chars("TETRA", m) || str_eq_chars("OCTA", m)
}

// ---------------------------------------------------------------------------
// Instruction words
// ---------------------------------------------------------------------------

/// The word `OP X Y Z`, one byte each.
pub open spec fn word(op: u8, x: u8, y: u8, z: u8) -> u32 {
    ((op as u32) << 24u32) | ((x as u32) << 16u32) | ((y as u32) << 8u32) | (z as u32)
}

/// The word `OP X YZ`.
pub open spec fn word_yz(op: u8, x: u8, yz: u16) -> u32 {
    ((op as u32) << 24u32) | ((x as u32) << 16u32) | (yz as u32)
}

/// The word `OP` with the 32-bit field `rest` or'ed into it.
pub open spec fn word_rest(op: u8, rest: u32) -> u32 {
    ((op as u32) << 24u32) | rest
}

fn make_word(op: u8, x: u8, y: u8, z: u8) -> (r: u32)
    ensures
        r == word(op, x, y, z),
{
    ((op as u32) << 24u32) | ((x as u32) << 16u32) | ((y as u32) << 8u32) | (z as u32)
}

fn make_word_yz(op: u8, x: u8, yz: u16) -> (r: u32)
    ensures
        r == word_yz(op, x, yz),
{
    ((op as u32) << 24u32) | ((x as u32) << 16u32) | (yz as u32)
}

fn make_word_rest(op: u8, rest: u32) -> (r: u32)
    ensures
        r == word_rest(op, rest),
{
    ((op as u32) << 24u32) | rest
}

/// A word read as a signed 64-bit number.
pub open spec fn signed(v: u64) -> int {
    if v < 0x8000_0000_0000_0000 {
        v as int
    } else {
        v - 0x1_0000_0000_0000_0000
    }
}

/// The relative field from `cur` to `target` in units of 4 bytes, as a field
/// of `span` values: whether it points backward, and the field. `None`
/// where the distance does not fit the arithmetic of the encoding.
pub open spec fn rel_field(target: u64, cur: u64, span: int) -> Option<(bool, int)> {
    let diff = signed(target) - signed(cur);
    if diff < -0x8000_0000_0000_0000 || diff > 0x7FFF_FFFF_FFFF_FFFF || diff
        == -0x8000_0000_0000_0000 {
        None
    } else if diff < 0 {
        let off = (-diff) / 4;
        if off > span {
            None
        } else {
            Some((true, (span - off) % span))
        }
    } else {
        Some((false, (diff / 4) % span))
    }
}

/// A relative field reaches exactly its target: for a target a whole
/// number of tetras from `cur`, fewer than `span` tetras ahead or at most
/// `span` behind, the field exists, points backward exactly when the
/// target lies behind, and counts the distance exactly (backward fields
/// count from `span`).
pub proof fn lemma_rel_field_exact(target: u64, cur: u64, span: int)
    requires
        span == 0x10000 || span == 0x100_0000,
        (signed(target) - signed(cur)) % 4 == 0,
        -4 * span <= signed(target) - signed(cur) < 4 * span,
    ensures
        rel_field(target, cur, span) matches Some((back, f)) && back == (signed(target) - signed(cur)
            < 0) && 0 <= f < span && signed(target) - signed(cur) == 4 * (if back {
            f - span
        } else {
            f
        }),
{
    let d = signed(target) - signed(cur);
    if d < 0 {
        let off = (-d) / 4;
        assert(off * 4 == -d);
        assert(1 <= off <= span);
        if off == span {
            assert((span - off) % span == 0);
        } else {
            assert((span - off) % span == span - off) by {
                vstd::arithmetic::div_mod::lemma_small_mod((span - off) as nat, span as nat);
            }
        }
    } else {
        assert((d / 4) % span == d / 4) by {
            vstd::arithmetic::div_mod::lemma_small_mod((d / 4) as nat, span as nat);
        }
    }
}

/// The scan of the name table finds only an opcode of the name sought.
pub proof fn lemma_find_opcode_named(m: Seq<char>, i: int, only_listed: bool)
    ensures
        find_opcode(m, i, only_listed) matches Some(o) ==> opcode_name(o)@ == m,
    decreases 256 - i,
{
    if 0 <= i < 256 {
        lemma_find_opcode_named(m, i + 1, only_listed);
    }
}

/// The text of a relative address that cannot be encoded.
pub open spec fn range_msg() -> Seq<char> {
    "relative address out of range"@
}

/// A branch-like word `OP X YZ`: backward targets take the next opcode.
pub open spec fn branch_word(op: u8, x: u8, target: u64, cur: u64) -> Result<u32, Seq<char>> {
    match rel_field(target, cur, 0x10000) {
        None => Err(range_msg()),
        Some((back, f)) => Ok(word_yz(if back { (op + 1) as u8 } else { op }, x, f as u16)),
    }
}

/// A jump word `OP XYZ`: backward targets take the next opcode.
pub open spec fn jump_word(op: u8, target: u64, cur: u64) -> Result<u32, Seq<char>> {
    match rel_field(target, cur, 0x1000000) {
        None => Err(range_msg()),
        Some((back, f)) => Ok(word_rest(if back { (op + 1) as u8 } else { op }, f as u32)),
    }
}

/// The opcode, moved to its immediate variant where `imm` is set.
pub open spec fn with_imm(op: u8, imm: bool) -> u8 {
    if imm {
        (op + 1) as u8
    } else {
        op
    }
}

/// The count error for a wrong number of operands.
pub open spec fn count_msg(prefix: Seq<char>, n: nat) -> Seq<char> {
    prefix + decimal(n)
}

// ---------------------------------------------------------------------------
// The operand grammar of each format
// ---------------------------------------------------------------------------

/// `$X,$Y,$Z` or `$X,$Y,Z`.
pub open spec fn spec_three_reg(
    op: u8,
    args: Seq<Seq<char>>,
    cur: u64,
    labels: Map<Seq<char>, u64>,
) -> Result<u32, Seq<char>> {
    if args.len() != 3 {
        Err(count_msg("expected 3 operands, got "@, args.len()))
    } else {
        match spec_parse_reg(args[0]) {
            Err(e) => Err(e),
            Ok(x) => match spec_parse_reg(args[1]) {
                Err(e) => Err(e),
                Ok(y) => match spec_parse_reg_or_imm_with_labels(args[2], labels, cur) {
                    Err(e) => Err(e),
                    Ok(zi) => Ok(word(with_imm(op, zi.1), x, y, zi.0)),
                },
            },
        }
    }
}

/// `$X,Y,$Z` or `$X,Y,Z`.
pub open spec fn spec_neg_style(
    op: u8,
    args: Seq<Seq<char>>,
    cur: u64,
    labels: Map<Seq<char>, u64>,
) -> Result<u32, Seq<char>> {
    if args.len() != 3 {
        Err(count_msg("expected 3 operands, got "@, args.len()))
    } else {
        match spec_parse_reg(args[0]) {
            Err(e) => Err(e),
            Ok(x) => match spec_resolve(args[1], labels, cur) {
                Err(e) => Err(e),
                Ok(y) => match spec_parse_reg_or_imm_with_labels(args[2], labels, cur) {
                    Err(e) => Err(e),
                    Ok(zi) => Ok(word(with_imm(op, zi.1), x, y as u8, zi.0)),
                },
            },
        }
    }
}

/// `$X,YZ` with a 16-bit value.
pub open spec fn spec_reg_imm16(
    op: u8,
    args: Seq<Seq<char>>,
    cur: u64,
    labels: Map<Seq<char>, u64>,
) -> Result<u32, Seq<char>> {
    if args.len() != 2 {
        Err(count_msg("expected 2 operands, got "@, args.len()))
    } else {
        match spec_parse_reg(args[0]) {
            Err(e) => Err(e),
            Ok(x) => match spec_resolve(args[1], labels, cur) {
                Err(e) => Err(e),
                Ok(v) => Ok(word_yz(op, x, v as u16)),
            },
        }
    }
}

/// `$X,target` relative to the current address.
pub open spec fn spec_branch(
    op: u8,
    args: Seq<Seq<char>>,
    cur: u64,
    labels: Map<Seq<char>, u64>,
) -> Result<u32, Seq<char>> {
    if args.len() != 2 {
        Err(count_msg("expected 2 operands, got "@, args.len()))
    } else {
        match spec_parse_reg(args[0]) {
            Err(e) => Err(e),
            Ok(x) => match spec_resolve(args[1], labels, cur) {
                Err(e) => Err(e),
                Ok(t) => branch_word(op, x, t, cur),
            },
        }
    }
}

/// `target` relative to the current address, in 24 bits.
pub open spec fn spec_jump(
    op: u8,
    args: Seq<Seq<char>>,
    cur: u64,
    labels: Map<Seq<char>, u64>,
) -> Result<u32, Seq<char>> {
    if args.len() != 1 {
        Err(count_msg("expected 1 operand, got "@, args.len()))
    } else {
        match spec_resolve(args[0], labels, cur) {
            Err(e) => Err(e),
            Ok(t) => jump_word(op, t, cur),
        }
    }
}

/// `X,Y,Z`, three numbers.
pub open spec fn spec_trap(op: u8, args: Seq<Seq<char>>) -> Result<u32, Seq<char>> {
    if args.len() != 3 {
        Err(count_msg("expected 3 operands, got "@, args.len()))
    } else {
        match spec_parse_number(args[0]) {
            Err(e) => Err(e),
            Ok(x) => match spec_parse_number(args[1]) {
                Err(e) => Err(e),
                Ok(y) => match spec_parse_number(args[2]) {
                    Err(e) => Err(e),
                    Ok(z) => Ok(word(op, x as u8, y as u8, z as u8)),
                },
            },
        }
    }
}

/// `$X,special`.
pub open spec fn spec_get(op: u8, args: Seq<Seq<char>>) -> Result<u32, Seq<char>> {
    if args.len() != 2 {
        Err(count_msg("expected 2 operands, got "@, args.len()))
    } else {
        match spec_parse_reg(args[0]) {
            Err(e) => Err(e),
            Ok(x) => match spec_parse_special_reg(args[1]) {
                Err(e) => Err(e),
                Ok(sr) => Ok(word(op, x, 0, sr)),
            },
        }
    }
}

/// `special,$Z` or `special,Z`.
pub open spec fn spec_put(op: u8, args: Seq<Seq<char>>) -> Result<u32, Seq<char>> {
    if args.len() != 2 {
        Err(count_msg("expected 2 operands, got "@, args.len()))
    } else {
        match spec_parse_special_reg(args[0]) {
            Err(e) => Err(e),
            Ok(sr) => match spec_parse_reg_or_imm(args[1]) {
                Err(e) => Err(e),
                Ok(zi) => Ok(word(with_imm(op, zi.1), sr, 0, zi.0)),
            },
        }
    }
}

/// `X,YZ`, two numbers.
pub open spec fn spec_pop(op: u8, args: Seq<Seq<char>>) -> Result<u32, Seq<char>> {
    if args.len() != 2 {
        Err(count_msg("expected 2 operands, got "@, args.len()))
    } else {
        match spec_parse_number(args[0]) {
            Err(e) => Err(e),
            Ok(x) => match spec_parse_number(args[1]) {
                Err(e) => Err(e),
                Ok(yz) => Ok(word_yz(op, x as u8, yz as u16)),
            },
        }
    }
}

/// No operand, or one register or number: `SAVE` puts it in X, the others in Z.
pub open spec fn spec_special(op: u8, args: Seq<Seq<char>>) -> Result<u32, Seq<char>> {
    if args.len() == 0 {
        Ok(word_rest(op, 0))
    } else if args.len() == 1 {
        let v: Result<u32, Seq<char>> = if starts_with(trim(args[0]), "$"@) {
            match spec_parse_reg(args[0]) {
                Err(e) => Err(e),
                Ok(r) => Ok(r as u32),
            }
        } else {
            match spec_parse_number(args[0]) {
                Err(e) => Err(e),
                Ok(n) => Ok(n as u32),
            }
        };
        match v {
            Err(e) => Err(e),
            Ok(val) => if op == op::SAVE {
                Ok(word_rest(op, val << 16u32))
            } else {
                Ok(word_rest(op, val))
            },
        }
    } else {
        Err("too many operands for special instruction"@)
    }
}

/// The word for the operands `args` of an instruction with base opcode
/// `op` read in `format`, at the address `cur`.
pub open spec fn spec_encode_instruction(
    op: u8,
    format: OperandFormat,
    args: Seq<Seq<char>>,
    cur: u64,
    labels: Map<Seq<char>, u64>,
) -> Result<u32, Seq<char>> {
    match format {
        OperandFormat::ThreeReg => spec_three_reg(op, args, cur, labels),
        OperandFormat::NegStyle => spec_neg_style(op, args, cur, labels),
        OperandFormat::RegImm16 => spec_reg_imm16(op, args, cur, labels),
        OperandFormat::Branch => spec_branch(op, args, cur, labels),
        OperandFormat::Jump => spec_jump(op, args, cur, labels),
        OperandFormat::Trap => spec_trap(op, args),
        OperandFormat::Get => spec_get(op, args),
        OperandFormat::Put => spec_put(op, args),
        OperandFormat::Pop => spec_pop(op, args),
        OperandFormat::PushJ => if op == op::PUSHGO {
            spec_three_reg(op, args, cur, labels)
        } else {
            spec_branch(op, args, cur, labels)
        },
        OperandFormat::Special => spec_special(op, args),
    }
}

/// The word for an alias with operands `args`.
pub open spec fn spec_encode_alias(
    lowering: AliasLowering,
    args: Seq<Seq<char>>,
    cur: u64,
    labels: Map<Seq<char>, u64>,
) -> Result<u32, Seq<char>> {
    match lowering {
        AliasLowering::Direct { target_op, format } => spec_encode_instruction(
            target_op,
            format,
            args,
            cur,
            labels,
        ),
        AliasLowering::BySecondOperand { reg_op, reg_fixed_z, imm_op, imm_format } => {
            if args.len() != 2 {
                Err(count_msg("expected 2 operands, got "@, args.len()))
            } else {
                match spec_parse_reg(args[0]) {
                    Err(e) => Err(e),
                    Ok(x) => if starts_with(trim(args[1]), "$"@) {
                        match spec_parse_reg(trim(args[1])) {
                            Err(e) => Err(e),
                            Ok(y) => Ok(word(reg_op, x, y, reg_fixed_z)),
                        }
                    } else {
                        spec_encode_instruction(imm_op, imm_format, args, cur, labels)
                    },
                }
            }
        },
    }
}

/// The operands as character sequences.
pub open spec fn arg_views(args: Seq<Vec<char>>) -> Seq<Seq<char>> {
    args.map_values(|a: Vec<char>| a@)
}

/// Whether the next opcode exists wherever the encoding may need it.
pub open spec fn has_next_op(op: u8, format: OperandFormat) -> bool {
    auto_suffix(format) ==> op < 255
}

/// Whether an alias lowers to opcodes whose next opcode exists.
pub open spec fn lowering_ok(l: AliasLowering) -> bool {
    match l {
        AliasLowering::Direct { target_op, format } => has_next_op(target_op, format),
        AliasLowering::BySecondOperand { imm_op, imm_format, .. } => has_next_op(
            imm_op,
            imm_format,
        ),
    }
}

// ---------------------------------------------------------------------------
// Executable encoders
// ---------------------------------------------------------------------------

fn fail(line: usize, message: String) -> (e: AssembleError)
    ensures
        e.line == line,
        e.message@ == message@,
{
    AssembleError { line, message }
}

fn count_error(prefix: &str, n: usize, line: usize) -> (e: AssembleError)
    ensures
        e.line == line,
        e.message@ == count_msg(prefix@, n as nat),
{
    let mut m = String::new();
    push_str(&mut m, prefix);
    push_decimal(&mut m, n as u64);
    AssembleError { line, message: m }
}

fn range_error(line: usize) -> (e: AssembleError)
    ensures
        e.line == line,
        e.message@ == range_msg(),
{
    let mut m = String::new();
    push_str(&mut m, "relative address out of range");
    AssembleError { line, message: m }
}

/// The two's complement reading of a word.
fn signed_of(v: u64) -> (r: i128)
    ensures
        r == signed(v),
{
    if v < 0x8000_0000_0000_0000 {
        v as i128
    } else {
        v as i128 - 0x1_0000_0000_0000_0000i128
    }
}

/// The relative field from `cur` to `target` (see [`rel_field`]).
fn rel_field_exec(target: u64, cur: u64, span: u64) -> (r: Option<(bool, u64)>)
    requires
        span == 0x10000 || span == 0x1000000,
    ensures
        match rel_field(target, cur, span as int) {
            None => r is None,
            Some((b, f)) => r == Some((b, f as u64)),
        },
        r matches Some((_, f)) ==> f < span,
{
    let diff: i128 = signed_of(target) - signed_of(cur);
    if diff < -0x8000_0000_0000_0000i128 || diff > 0x7FFF_FFFF_FFFF_FFFFi128 || diff
        == -0x8000_0000_0000_0000i128 {
        None
    } else if diff < 0 {
        let off: i128 = (-diff) / 4;
        if off > span as i128 {
            None
        } else {
            Some((true, ((span as i128 - off) % (span as i128)) as u64))
        }
    } else {
        Some((false, ((diff / 4) % (span as i128)) as u64))
    }
}

fn encode_branch(op: u8, x: u8, target: u64, cur: u64, line: usize) -> (r: Result<u32, AssembleError>)
    requires
        op < 255,
    ensures
        match branch_word(op, x, target, cur) {
            Ok(w) => r == Ok::<u32, AssembleError>(w),
            Err(m) => r matches Err(e) && e.line == line && e.message@ == m,
        },
{
    match rel_field_exec(target, cur, 0x10000) {
        None => Err(range_error(line)),
        Some((back, f)) => {
            let o = if back {
                op + 1
            } else {
                op
            };
            Ok(make_word_yz(o, x, f as u16))
        },
    }
}

fn encode_jump(op: u8, target: u64, cur: u64, line: usize) -> (r: Result<u32, AssembleError>)
    requires
        op < 255,
    ensures
        match jump_word(op, target, cur) {
            Ok(w) => r == Ok::<u32, AssembleError>(w),
            Err(m) => r matches Err(e) && e.line == line && e.message@ == m,
        },
{
    match rel_field_exec(target, cur, 0x1000000) {
        None => Err(range_error(line)),
        Some((back, f)) => {
            let o = if back {
                op + 1
            } else {
                op
            };
            Ok(make_word_rest(o, f as u32))
        },
    }
}

/// Whether `r` is the outcome `s` on source line `line`.
pub open spec fn outcome(r: Result<u32, AssembleError>, s: Result<u32, Seq<char>>, line: usize) -> bool {
    match s {
        Ok(w) => r == Ok::<u32, AssembleError>(w),
        Err(m) => r matches Err(e) && e.line == line && e.message@ == m,
    }
}

fn encode_three_reg(
    op: u8,
    args: &[Vec<char>],
    cur: u64,
    labels: &SymbolTable,
    line: usize,
) -> (r: Result<u32, AssembleError>)
    requires
        op < 255,
    ensures
        outcome(r, spec_three_reg(op, arg_views(args@), cur, labels@), line),
{
    if args.len() != 3 {
        return Err(count_error("expected 3 operands, got ", args.len(), line));
    }
    let x = match parse_reg(args[0].as_slice()) {
        Ok(v) => v,
        Err(m) => {
            return Err(fail(line, m));
        },
    };
    let y = match parse_reg(args[1].as_slice()) {
        Ok(v) => v,
        Err(m) => {
            return Err(fail(line, m));
        },
    };
    let (z, imm) = match parse_reg_or_imm_with_labels(args[2].as_slice(), labels, cur) {
        Ok(v) => v,
        Err(m) => {
            return Err(fail(line, m));
        },
    };
    let o = if imm {
        op + 1
    } else {
        op
    };
    Ok(make_word(o, x, y, z))
}

fn encode_neg_style(
    op: u8,
    args: &[Vec<char>],
    cur: u64,
    labels: &SymbolTable,
    line: usize,
) -> (r: Result<u32, AssembleError>)
    requires
        op < 255,
    ensures
        outcome(r, spec_neg_style(op, arg_views(args@), cur, labels@), line),
{
    if args.len() != 3 {
        return Err(count_error("expected 3 operands, got ", args.len(), line));
    }
    let x = match parse_reg(args[0].as_slice()) {
        Ok(v) => v,
        Err(m) => {
            return Err(fail(line, m));
        },
    };
    let y = match resolve_label_or_number(args[1].as_slice(), labels, cur) {
        Ok(v) => v,
        Err(m) => {
            return Err(fail(line, m));
        },
    };
    let (z, imm) = match parse_reg_or_imm_with_labels(args[2].as_slice(), labels, cur) {
        Ok(v) => v,
        Err(m) => {
            return Err(fail(line, m));
        },
    };
    let o = if imm {
        op + 1
    } else {
        op
    };
    Ok(make_word(o, x, y as u8, z))
}

fn encode_reg_imm16(
    op: u8,
    args: &[Vec<char>],
    cur: u64,
    labels: &SymbolTable,
    line: usize,
) -> (r: Result<u32, AssembleError>)
    ensures
        outcome(r, spec_reg_imm16(op, arg_views(args@), cur, labels@), line),
{
    if args.len() != 2 {
        return Err(count_error("expected 2 operands, got ", args.len(), line));
    }
    let x = match parse_reg(args[0].as_slice()) {
        Ok(v) => v,
        Err(m) => {
            return Err(fail(line, m));
        },
    };
    let v = match resolve_label_or_number(args[1].as_slice(), labels, cur) {
        Ok(v) => v,
        Err(m) => {
            return Err(fail(line, m));
        },
    };
    Ok(make_word_yz(op, x, v as u16))
}

fn encode_branch_ops(
    op: u8,
    args: &[Vec<char>],
    cur: u64,
    labels: &SymbolTable,
    line: usize,
) -> (r: Result<u32, AssembleError>)
    requires
        op < 255,
    ensures
        outcome(r, spec_branch(op, arg_views(args@), cur, labels@), line),
{
    if args.len() != 2 {
        return Err(count_error("expected 2 operands, got ", args.len(), line));
    }
    let x = match parse_reg(args[0].as_slice()) {
        Ok(v) => v,
        Err(m) => {
            return Err(fail(line, m));
        },
    };
    let t = match resolve_label_or_number(args[1].as_slice(), labels, cur) {
        Ok(v) => v,
        Err(m) => {
            return Err(fail(line, m));
        },
    };
    encode_branch(op, x, t, cur, line)
}

fn encode_jump_ops(
    op: u8,
    args: &[Vec<char>],
    cur: u64,
    labels: &SymbolTable,
    line: usize,
) -> (r: Result<u32, AssembleError>)
    requires
        op < 255,
    ensures
        outcome(r, spec_jump(op, arg_views(args@), cur, labels@), line),
{
    if args.len() != 1 {
        return Err(count_error("expected 1 operand, got ", args.len(), line));
    }
    let t = match resolve_label_or_number(args[0].as_slice(), labels, cur) {
        Ok(v) => v,
        Err(m) => {
            return Err(fail(line, m));
        },
    };
    encode_jump(op, t, cur, line)
}

fn encode_trap(op: u8, args: &[Vec<char>], line: usize) -> (r: Result<u32, AssembleError>)
    ensures
        outcome(r, spec_trap(op, arg_views(args@)), line),
{
    if args.len() != 3 {
        return Err(count_error("expected 3 operands, got ", args.len(), line));
    }
    let x = match parse_number(args[0].as_slice()) {
        Ok(v) => v,
        Err(m) => {
            return Err(fail(line, m));
        },
    };
    let y = match parse_number(args[1].as_slice()) {
        Ok(v) => v,
        Err(m) => {
            return Err(fail(line, m));
        },
    };
    let z = match parse_number(args[2].as_slice()) {
        Ok(v) => v,
        Err(m) => {
            return Err(fail(line, m));
        },
    };
    Ok(make_word(op, x as u8, y as u8, z as u8))
}

fn encode_get(op: u8, args: &[Vec<char>], line: usize) -> (r: Result<u32, AssembleError>)
    ensures
        outcome(r, spec_get(op, arg_views(args@)), line),
{
    if args.len() != 2 {
        return Err(count_error("expected 2 operands, got ", args.len(), line));
    }
    let x = match parse_reg(args[0].as_slice()) {
        Ok(v) => v,
        Err(m) => {
            return Err(fail(line, m));
        },
    };
    let sr = match parse_special_reg(args[1].as_slice()) {
        Ok(v) => v,
        Err(m) => {
            return Err(fail(line, m));
        },
    };
    Ok(make_word(op, x, 0, sr))
}

fn encode_put(op: u8, args: &[Vec<char>], line: usize) -> (r: Result<u32, AssembleError>)
    requires
        op < 255,
    ensures
        outcome(r, spec_put(op, arg_views(args@)), line),
{
    if args.len() != 2 {
        return Err(count_error("expected 2 operands, got ", args.len(), line));
    }
    let sr = match parse_special_reg(args[0].as_slice()) {
        Ok(v) => v,
        Err(m) => {
            return Err(fail(line, m));
        },
    };
    let (z, imm) = match parse_reg_or_imm(args[1].as_slice()) {
        Ok(v) => v,
        Err(m) => {
            return Err(fail(line, m));
        },
    };
    let o = if imm {
        op + 1
    } else {
        op
    };
    Ok(make_word(o, sr, 0, z))
}

fn encode_pop(op: u8, args: &[Vec<char>], line: usize) -> (r: Result<u32, AssembleError>)
    ensures
        outcome(r, spec_pop(op, arg_views(args@)), line),
{
    if args.len() != 2 {
        return Err(count_error("expected 2 operands, got ", args.len(), line));
    }
    let x = match parse_number(args[0].as_slice()) {
        Ok(v) => v,
        Err(m) => {
            return Err(fail(line, m));
        },
    };
    let yz = match parse_number(args[1].as_slice()) {
        Ok(v) => v,
        Err(m) => {
            return Err(fail(line, m));
        },
    };
    Ok(make_word_yz(op, x as u8, yz as u16))
}

fn encode_special(op: u8, args: &[Vec<char>], line: usize) -> (r: Result<u32, AssembleError>)
    ensures
        outcome(r, spec_special(op, arg_views(args@)), line),
{
    if args.len() == 0 {
        return Ok(make_word_rest(op, 0));
    }
    if args.len() != 1 {
        let mut m = String::new();
        push_str(&mut m, "too many operands for special instruction");
        return Err(AssembleError { line, message: m });
    }
    let t = trim_chars(args[0].as_slice());
    assert(arg_views(args@)[0] == args@[0]@);
    let val: u32 = if t.len() > 0 && t[0] == '$' {
        proof {
            reveal_strlit("$");
            assert(t@.take(1) =~= "$"@);
        }
        match parse_reg(args[0].as_slice()) {
            Ok(v) => v as u32,
            Err(m) => {
                return Err(fail(line, m));
            },
        }
    } else {
        proof {
            reveal_strlit("$");
            if t@.len() > 0 {
                assert(t@.take(1)[0] == t@[0]);
            }
        }
        match parse_number(args[0].as_slice()) {
            Ok(v) => v as u32,
            Err(m) => {
                return Err(fail(line, m));
            },
        }
    };
    if op == op::SAVE {
        Ok(make_word_rest(op, val << 16u32))
    } else {
        Ok(make_word_rest(op, val))
    }
}

/// The word for the operands of an instruction with base opcode `op` read
/// in `format`, at address `cur` on source line `line`.
pub fn encode_instruction(
    op: u8,
    format: OperandFormat,
    args: &[Vec<char>],
    cur: u64,
    labels: &SymbolTable,
    line: usize,
) -> (r: Result<u32, AssembleError>)
    requires
        has_next_op(op, format),
    ensures
        outcome(r, spec_encode_instruction(op, format, arg_views(args@), cur, labels@), line),
{
    match format {
        OperandFormat::ThreeReg => encode_three_reg(op, args, cur, labels, line),
        OperandFormat::NegStyle => encode_neg_style(op, args, cur, labels, line),
        OperandFormat::RegImm16 => encode_reg_imm16(op, args, cur, labels, line),
        OperandFormat::Branch => encode_branch_ops(op, args, cur, labels, line),
        OperandFormat::Jump => encode_jump_ops(op, args, cur, labels, line),
        OperandFormat::Trap => encode_trap(op, args, line),
        OperandFormat::Get => encode_get(op, args, line),
        OperandFormat::Put => encode_put(op, args, line),
        OperandFormat::Pop => encode_pop(op, args, line),
        OperandFormat::PushJ => if op == op::PUSHGO {
            encode_three_reg(op, args, cur, labels, line)
        } else {
            encode_branch_ops(op, args, cur, labels, line)
        },
        OperandFormat::Special => encode_special(op, args, line),
    }
}

/// The word for an alias with operands `args`.
pub fn encode_alias(
    lowering: &AliasLowering,
    args: &[Vec<char>],
    cur: u64,
    labels: &SymbolTable,
    line: usize,
) -> (r: Result<u32, AssembleError>)
    requires
        lowering_ok(*lowering),
    ensures
        outcome(r, spec_encode_alias(*lowering, arg_views(args@), cur, labels@), line),
{
    match lowering {
        AliasLowering::Direct { target_op, format } => encode_instruction(
            *target_op,
            *format,
            args,
            cur,
            labels,
            line,
        ),
        AliasLowering::BySecondOperand { reg_op, reg_fixed_z, imm_op, imm_format } => {
            if args.len() != 2 {
                return Err(count_error("expected 2 operands, got ", args.len(), line));
            }
            let x = match parse_reg(args[0].as_slice()) {
                Ok(v) => v,
                Err(m) => {
                    return Err(fail(line, m));
                },
            };
            let second = trim_chars(args[1].as_slice());
            assert(arg_views(args@)[1] == args@[1]@);
            if second.len() > 0 && second[0] == '$' {
                proof {
                    reveal_strlit("$");
                    assert(second@.take(1) =~= "$"@);
                }
                match parse_reg(second.as_slice()) {
                    Ok(y) => Ok(make_word(*reg_op, x, y, *reg_fixed_z)),
                    Err(m) => Err(fail(line, m)),
                }
            } else {
                proof {
                    reveal_strlit("$");
                    if second@.len() > 0 {
                        assert(second@.take(1)[0] == second@[0]);
                    }
                }
                encode_instruction(*imm_op, *imm_format, args, cur, labels, line)
            }
        },
    }
}

} // verus!
