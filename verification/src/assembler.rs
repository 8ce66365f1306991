//! The two-pass MMIXAL assembler: symbols first, then code and data.

use crate::encode::{
    lemma_lookup_encodable, arg_views, encode_alias, encode_instruction, is_mnemonic, lookup_mnemonic, spec_encode_alias,
    spec_encode_instruction, spec_is_mnemonic, spec_lookup, InstrEntry,
};
use crate::memory::{be_bytes, push_be};
use std::collections::HashMap;
use crate::parse::{
    parse_number, parse_string_literal, resolve_label_or_number, spec_parse_number,
    spec_parse_string_literal, spec_resolve, starts_with, SymbolTable,
};
use crate::text::{
    decimal, find_char, find_ws, hex, is_ws, split_on, text_lines, trim, trim_end, upper_text, utf8,
};
use crate::parse::starts_with_chars;
use crate::text::lines as text_lines_exec;
use crate::text::{
    chars_of, find, find_whitespace, is_whitespace, push_chars, push_decimal, push_hex, push_str,
    push_utf8, slice_chars, split, str_eq_chars, to_upper, trim_chars, trim_end_chars,
};
use vstd::prelude::*;

verus! {

/// Why assembling failed, and on which source line (counted from 0).
#[derive(Debug)]
pub struct AssembleError {
    pub line: usize,
    pub message: String,
}

impl AssembleError {
    /// The error as text: `line N: message`, with lines counted from 1.
    pub fn to_string(&self) -> (s: String)
        requires
            self.line < usize::MAX,
        ensures
            s@ == "line "@ + decimal((self.line + 1) as nat) + ": "@ + self.message@,
    {
        let mut s = String::new();
        push_str(&mut s, "line ");
        push_decimal(&mut s, (self.line + 1) as u64);
        push_str(&mut s, ": ");
        push_str(&mut s, self.message.as_str());
        s
    }
}

// ---------------------------------------------------------------------------
// The source text, line by line
// ---------------------------------------------------------------------------

/// A line without its comment (from `%` or `;` on) and without surrounding
/// whitespace.
pub open spec fn strip_comment(line: Seq<char>) -> Seq<char> {
    let a = match find_char(line, '%') {
        Some(p) => line.take(p),
        None => line,
    };
    let b = match find_char(a, ';') {
        Some(p) => a.take(p),
        None => a,
    };
    trim(b)
}

/// A word without its trailing colons.
pub open spec fn trim_colons(w: Seq<char>) -> Seq<char>
    decreases w.len(),
{
    if w.len() > 0 && w.last() == ':' {
        trim_colons(w.drop_last())
    } else {
        w
    }
}

/// The label that starts a line, if its first word is no mnemonic, and the
/// rest of the line.
pub open spec fn spec_extract_label(line: Seq<char>) -> (Option<Seq<char>>, Seq<char>) {
    let lt = trim_end(line);
    if lt.len() == 0 || is_ws(line[0]) {
        (None, lt)
    } else {
        let end = match find_ws(lt) {
            Some(i) => i,
            None => lt.len() as int,
        };
        let first = lt.take(end);
        if spec_is_mnemonic(upper_text(trim_colons(first))) {
            (None, lt)
        } else {
            (Some(trim_colons(first)), lt.skip(end))
        }
    }
}

/// The mnemonic (in upper case) and the operand text of a statement.
pub open spec fn split_mnemonic(rest: Seq<char>) -> (Seq<char>, Seq<char>) {
    let end = match find_ws(rest) {
        Some(i) => i,
        None => rest.len() as int,
    };
    (upper_text(rest.take(end)), trim(rest.skip(end)))
}

/// The assembler's directives.
#[derive(Debug, Clone, Copy, PartialEq, Eq, Structural)]
pub enum Directive {
    /// `LOC expr`: move the location counter.
    Loc,
    /// `IS expr`: give the label a value.
    Is,
    /// `BYTE`, `WYDE`, `TETRA`, `OCTA`: data of 1, 2, 4 or 8 bytes each.
    Byte,
    Wyde,
    Tetra,
    Octa,
}

/// The directive an upper-case mnemonic names.
pub open spec fn spec_directive(m: Seq<char>) -> Option<Directive> {
    if m == "LOC"@ {
        Some(Directive::Loc)
    } else if m == "IS"@ {
        Some(Directive::Is)
    } else if m == "BYTE"@ {
        Some(Directive::Byte)
    } else if m == "WYDE"@ {
        Some(Directive::Wyde)
    } else if m == "TETRA"@ {
        Some(Directive::Tetra)
    } else if m == "OCTA"@ {
        Some(Directive::Octa)
    } else {
        None
    }
}

/// The size of one datum of a data directive.
pub open spec fn unit_of(d: Directive) -> nat {
    match d {
        Directive::Byte => 1,
        Directive::Wyde => 2,
        Directive::Tetra => 4,
        Directive::Octa => 8,
        _ => 0,
    }
}

/// The zero bytes that pad `len` bytes to a multiple of `unit`.
pub open spec fn pad_len(len: nat, unit: nat) -> nat {
    ((unit - len % unit) as int % (unit as int)) as nat
}

/// The first comma at or after `i` that stands outside double quotes
/// (`inq`: whether position `i` lies inside quotes).
pub open spec fn top_comma(s: Seq<char>, i: int, inq: bool) -> Option<int>
    decreases s.len() - i,
{
    if i < 0 || i >= s.len() {
        None
    } else if s[i] == '"' {
        top_comma(s, i + 1, !inq)
    } else if s[i] == ',' && !inq {
        Some(i)
    } else {
        top_comma(s, i + 1, inq)
    }
}

/// The operands of a data directive: its text split at the commas that
/// stand outside double quotes.
pub open spec fn data_operands(s: Seq<char>) -> Seq<Seq<char>>
    decreases s.len(),
{
    match top_comma(s, 0, false) {
        Some(p) => if 0 <= p < s.len() {
            seq![s.take(p)] + data_operands(s.skip(p + 1))
        } else {
            seq![s]
        },
        None => seq![s],
    }
}

/// Whether a data operand is a string literal.
pub open spec fn is_string_operand(op: Seq<char>) -> bool {
    starts_with(trim(op), "\""@)
}

/// `len` rounded up to whole units.
pub open spec fn padded(len: nat, unit: nat) -> nat {
    (((len + unit - 1) / unit as int) * unit) as nat
}

/// The bytes of one data operand: a string literal's UTF-8 bytes padded
/// with zeros to whole units, or a number in `unit` bytes, most significant
/// first.
pub open spec fn spec_datum(op: Seq<char>, unit: nat) -> Result<Seq<u8>, Seq<char>> {
    if is_string_operand(op) {
        match spec_parse_string_literal(trim(op)) {
            Err(e) => Err(e),
            Ok(s) => Ok(utf8(s) + Seq::new(pad_len(utf8(s).len(), unit), |i: int| 0u8)),
        }
    } else {
        match spec_parse_number(op) {
            Err(e) => Err(e),
            Ok(v) => Ok(be_bytes(v as nat, unit)),
        }
    }
}

/// How many bytes the first pass counts for one data operand: a string
/// literal's padded length, or one unit for a number (read in pass 2).
pub open spec fn spec_datum_size(op: Seq<char>, unit: nat) -> Result<nat, Seq<char>> {
    if is_string_operand(op) {
        match spec_parse_string_literal(trim(op)) {
            Err(e) => Err(e),
            Ok(s) => Ok(padded(utf8(s).len(), unit)),
        }
    } else {
        Ok(unit)
    }
}

/// The bytes of the operands `parts`, one after another.
pub open spec fn spec_emit_parts(parts: Seq<Seq<char>>, unit: nat) -> Result<Seq<u8>, Seq<char>>
    decreases parts.len(),
{
    if parts.len() == 0 {
        Ok(Seq::empty())
    } else {
        match spec_datum(parts[0], unit) {
            Err(e) => Err(e),
            Ok(d) => match spec_emit_parts(parts.drop_first(), unit) {
                Err(e) => Err(e),
                Ok(rest) => Ok(d + rest),
            },
        }
    }
}

/// The sizes of the operands `parts`, added up.
pub open spec fn spec_count_parts(parts: Seq<Seq<char>>, unit: nat) -> Result<nat, Seq<char>>
    decreases parts.len(),
{
    if parts.len() == 0 {
        Ok(0)
    } else {
        match spec_datum_size(parts[0], unit) {
            Err(e) => Err(e),
            Ok(n) => match spec_count_parts(parts.drop_first(), unit) {
                Err(e) => Err(e),
                Ok(rest) => Ok(n + rest),
            },
        }
    }
}

/// How many bytes a data directive emits.
pub open spec fn spec_count_data(args: Seq<char>, unit: nat) -> Result<nat, Seq<char>> {
    if args.len() == 0 {
        Err("data directive requires arguments"@)
    } else {
        spec_count_parts(data_operands(args), unit)
    }
}

/// The bytes of a data directive: those of each operand in turn.
pub open spec fn spec_emit_data(args: Seq<char>, unit: nat) -> Result<Seq<u8>, Seq<char>> {
    spec_emit_parts(data_operands(args), unit)
}

/// The operands of an instruction statement.
pub open spec fn spec_args(args: Seq<char>) -> Seq<Seq<char>> {
    if args.len() == 0 {
        Seq::empty()
    } else {
        split_on(args, ',')
    }
}

// ---------------------------------------------------------------------------
// Pass 1: symbols
// ---------------------------------------------------------------------------

/// The segment symbols that every program knows.
pub open spec fn reserved_symbols() -> Map<Seq<char>, u64> {
    map![
        "Text_Segment"@ => 0u64,
        "Data_Segment"@ => 0x2000_0000_0000_0000u64,
        "Pool_Segment"@ => 0x4000_0000_0000_0000u64,
        "Stack_Segment"@ => 0x6000_0000_0000_0000u64,
    ]
}

/// What the first pass knows after some lines.
pub struct SymbolPass {
    pub labels: Map<Seq<char>, u64>,
    pub lc: u64,
    pub entry: Option<u64>,
}

/// Before the first line.
pub open spec fn symbol_pass_start() -> SymbolPass {
    SymbolPass { labels: reserved_symbols(), lc: 0, entry: None }
}

/// The table with the label, if there is one, bound to `v`.
pub open spec fn with_label(labels: Map<Seq<char>, u64>, label: Option<Seq<char>>, v: u64) -> Map<
    Seq<char>,
    u64,
> {
    match label {
        Some(l) => labels.insert(l, v),
        None => labels,
    }
}

/// The text of an address that leaves the 64-bit space.
pub open spec fn overflow_msg() -> Seq<char> {
    "location counter overflow"@
}

/// The first pass over one line.
pub open spec fn symbol_line(st: SymbolPass, raw: Seq<char>) -> Result<SymbolPass, Seq<char>> {
    let line = strip_comment(raw);
    if line.len() == 0 {
        Ok(st)
    } else {
        let (label, rest0) = spec_extract_label(line);
        if label matches Some(l) && reserved_symbols().contains_key(l) {
            Err("'"@ + label.unwrap() + "' is a reserved segment symbol and cannot be redefined"@)
        } else if label matches Some(l) && st.labels.contains_key(l) {
            Err("duplicate label '"@ + label.unwrap() + "'"@)
        } else {
            let rest = trim(rest0);
            if rest.len() == 0 {
                Ok(SymbolPass { labels: with_label(st.labels, label, st.lc), ..st })
            } else {
                let (mnem, args) = split_mnemonic(rest);
                match spec_directive(mnem) {
                    Some(Directive::Is) => match label {
                        None => Err("IS requires a label"@),
                        Some(l) => match spec_resolve(args, st.labels, st.lc) {
                            Err(e) => Err(e),
                            Ok(v) => Ok(SymbolPass { labels: st.labels.insert(l, v), ..st }),
                        },
                    },
                    Some(Directive::Loc) => match spec_resolve(args, st.labels, st.lc) {
                        Err(e) => Err(e),
                        Ok(a) => Ok(
                            SymbolPass {
                                labels: with_label(st.labels, label, a),
                                lc: a,
                                entry: if st.entry is None {
                                    Some(a)
                                } else {
                                    st.entry
                                },
                            },
                        ),
                    },
                    d => {
                        let size: Result<nat, Seq<char>> = match d {
                            Some(dd) => spec_count_data(args, unit_of(dd)),
                            None => Ok(4),
                        };
                        match size {
                            Err(e) => Err(e),
                            Ok(n) => if st.lc + n > u64::MAX {
                                Err(overflow_msg())
                            } else {
                                Ok(
                                    SymbolPass {
                                        labels: with_label(st.labels, label, st.lc),
                                        lc: (st.lc + n) as u64,
                                        entry: st.entry,
                                    },
                                )
                            },
                        }
                    },
                }
            }
        }
    }
}

/// The first pass from line `i` on: the symbols, or the first error with its line.
pub open spec fn symbol_pass(lines: Seq<Seq<char>>, i: int, st: SymbolPass) -> Result<
    SymbolPass,
    (int, Seq<char>),
>
    decreases lines.len() - i,
{
    if i < 0 || i >= lines.len() {
        Ok(st)
    } else {
        match symbol_line(st, lines[i]) {
            Err(e) => Err((i, e)),
            Ok(next) => symbol_pass(lines, i + 1, next),
        }
    }
}

// ---------------------------------------------------------------------------
// Pass 2: code and data
// ---------------------------------------------------------------------------

/// The segment an address lies in: which eighth of the 64-bit space.
pub open spec fn segment_of(a: u64) -> int {
    (a / 0x2000_0000_0000_0000) as int
}

/// What the second pass has built after some lines: for each of the eight
/// segments its start and bytes, if it was entered; the segment being
/// written; the address of the next byte; and the source maps.
pub struct EmitPass {
    pub segs: Seq<Option<(u64, Seq<u8>)>>,
    pub cur_seg: int,
    pub cur: u64,
    pub line_to_offset: Map<usize, u64>,
    pub offset_to_line: Map<u64, usize>,
}

/// Before the first line, writing from `entry` on.
pub open spec fn emit_pass_start(entry: u64) -> EmitPass {
    EmitPass {
        segs: Seq::new(8, |k: int| if k == segment_of(entry) { Some((entry, Seq::<u8>::empty())) } else { None }),
        cur_seg: segment_of(entry),
        cur: entry,
        line_to_offset: Map::empty(),
        offset_to_line: Map::empty(),
    }
}

/// The state with line `idx` recorded at the current address.
pub open spec fn record_line(st: EmitPass, idx: usize) -> EmitPass {
    EmitPass {
        line_to_offset: st.line_to_offset.insert(idx, st.cur),
        offset_to_line: st.offset_to_line.insert(st.cur, idx),
        ..st
    }
}

/// The state with `data` written at the current address.
pub open spec fn write_data(st: EmitPass, data: Seq<u8>) -> Result<EmitPass, Seq<char>> {
    if st.cur + data.len() > u64::MAX {
        Err(overflow_msg())
    } else {
        let (base, bytes) = st.segs[st.cur_seg].unwrap();
        Ok(
            EmitPass {
                segs: st.segs.update(st.cur_seg, Some((base, bytes + data))),
                cur: (st.cur + data.len()) as u64,
                ..st
            },
        )
    }
}

/// The text of a `LOC` that moves back within its segment.
pub open spec fn loc_back_msg(a: u64, end: int) -> Seq<char> {
    "LOC "@ + hex(a as nat) + " is before current position in segment ("@ + hex(end as nat) + ")"@
}

/// The state after `LOC a`: writing continues at `a` in the segment of
/// `a`, which grows with zeros up to `a`; moving back within a segment is
/// an error.
pub open spec fn loc_move(st: EmitPass, a: u64) -> Result<EmitPass, Seq<char>> {
    let k = segment_of(a);
    let (base, bytes) = match st.segs[k] {
        Some(p) => p,
        None => (a, Seq::<u8>::empty()),
    };
    let end = base + bytes.len();
    if a < end {
        Err(loc_back_msg(a, end))
    } else {
        Ok(
            EmitPass {
                segs: st.segs.update(k, Some((base, bytes + Seq::new((a - end) as nat, |i: int| 0u8)))),
                cur_seg: k,
                cur: a,
                ..st
            },
        )
    }
}

/// The second pass over line `idx`.
pub open spec fn emit_line(st: EmitPass, labels: Map<Seq<char>, u64>, idx: usize, raw: Seq<char>) -> Result<
    EmitPass,
    Seq<char>,
> {
    let line = strip_comment(raw);
    if line.len() == 0 {
        Ok(st)
    } else {
        let rest = trim(spec_extract_label(line).1);
        if rest.len() == 0 {
            Ok(st)
        } else {
            let (mnem, args) = split_mnemonic(rest);
            match spec_directive(mnem) {
                Some(Directive::Is) => Ok(st),
                Some(Directive::Loc) => match spec_resolve(args, labels, st.cur) {
                    Err(e) => Err(e),
                    Ok(a) => loc_move(st, a),
                },
                Some(d) => match spec_emit_data(args, unit_of(d)) {
                    Err(e) => Err(e),
                    Ok(data) => write_data(record_line(st, idx), data),
                },
                None => match spec_lookup(mnem) {
                    None => Err("unknown instruction '"@ + mnem + "'"@),
                    Some(entry) => {
                        let w = match entry {
                            InstrEntry::Real { base_op, format } => spec_encode_instruction(
                                base_op,
                                format,
                                spec_args(args),
                                st.cur,
                                labels,
                            ),
                            InstrEntry::Alias(l) => spec_encode_alias(l, spec_args(args), st.cur, labels),
                        };
                        match w {
                            Err(e) => Err(e),
                            Ok(w) => write_data(record_line(st, idx), be_bytes(w as nat, 4)),
                        }
                    },
                },
            }
        }
    }
}

/// The second pass from line `i` on.
pub open spec fn emit_pass(lines: Seq<Seq<char>>, i: int, labels: Map<Seq<char>, u64>, st: EmitPass) -> Result<
    EmitPass,
    (int, Seq<char>),
>
    decreases lines.len() - i,
{
    if i < 0 || i >= lines.len() {
        Ok(st)
    } else {
        match emit_line(st, labels, i as usize, lines[i]) {
            Err(e) => Err((i, e)),
            Ok(next) => emit_pass(lines, i + 1, labels, next),
        }
    }
}

/// The segments that were entered, in the order of their addresses.
pub open spec fn entered(segs: Seq<Option<(u64, Seq<u8>)>>, k: int) -> Seq<(u64, Seq<u8>)>
    decreases segs.len() - k,
{
    if k < 0 || k >= segs.len() {
        Seq::empty()
    } else {
        match segs[k] {
            Some(p) => seq![p] + entered(segs, k + 1),
            None => entered(segs, k + 1),
        }
    }
}

/// What assembling gives: the bytes of the segment that holds the entry
/// address, all segments, the source maps and the entry address.
pub struct Assembled {
    pub bytes: Seq<u8>,
    pub segments: Seq<(u64, Seq<u8>)>,
    pub line_to_offset: Map<usize, u64>,
    pub offset_to_line: Map<u64, usize>,
    pub entry: u64,
}

/// Assembling a source text: the result, or the first error and its line.
pub open spec fn spec_assemble(source: Seq<char>) -> Result<Assembled, (int, Seq<char>)> {
    let lines = text_lines(source);
    match symbol_pass(lines, 0, symbol_pass_start()) {
        Err(e) => Err(e),
        Ok(st1) => {
            let entry = match st1.entry {
                Some(e) => e,
                None => 0u64,
            };
            match emit_pass(lines, 0, st1.labels, emit_pass_start(entry)) {
                Err(e) => Err(e),
                Ok(st2) => Ok(
                    Assembled {
                        bytes: st2.segs[segment_of(entry)].unwrap().1,
                        segments: entered(st2.segs, 0),
                        line_to_offset: st2.line_to_offset,
                        offset_to_line: st2.offset_to_line,
                        entry,
                    },
                ),
            }
        },
    }
}

// ---------------------------------------------------------------------------
// Executable line handling
// ---------------------------------------------------------------------------

/// `a`, then `b`, then `c`, as one message.
fn message3(a: &str, b: &[char], c: &str) -> (m: String)
    ensures
        m@ == a@ + b@ + c@,
{
    let mut m = String::new();
    push_str(&mut m, a);
    push_chars(&mut m, b);
    push_str(&mut m, c);
    proof {
        assert(m@ =~= a@ + b@ + c@);
    }
    m
}

fn error_at(line: usize, a: &str) -> (e: AssembleError)
    ensures
        e.line == line,
        e.message@ == a@,
{
    let mut m = String::new();
    push_str(&mut m, a);
    proof {
        assert(m@ =~= a@);
    }
    AssembleError { line, message: m }
}

/// The line without its comment and surrounding whitespace.
fn strip_comment_exec(line: &[char]) -> (r: Vec<char>)
    ensures
        r@ == strip_comment(line@),
{
    let a = match find(line, '%') {
        Some(p) => slice_chars(line, 0, p),
        None => slice_chars(line, 0, line.len()),
    };
    proof {
        if find_char(line@, '%') is None {
            assert(line@.subrange(0, line@.len() as int) =~= line@);
        }
    }
    let b = match find(a.as_slice(), ';') {
        Some(p) => slice_chars(a.as_slice(), 0, p),
        None => slice_chars(a.as_slice(), 0, a.len()),
    };
    proof {
        if find_char(a@, ';') is None {
            assert(a@.subrange(0, a@.len() as int) =~= a@);
        }
    }
    trim_chars(b.as_slice())
}

/// The word without its trailing colons.
fn trim_colons_exec(w: &[char]) -> (r: Vec<char>)
    ensures
        r@ == trim_colons(w@),
{
    let mut k = w.len();
    proof {
        assert(w@.take(k as int) =~= w@);
    }
    while k > 0 && w[k - 1] == ':'
        invariant
            k <= w@.len(),
            trim_colons(w@) == trim_colons(w@.take(k as int)),
        decreases k,
    {
        proof {
            assert(w@.take(k as int).drop_last() =~= w@.take(k - 1));
            assert(w@.take(k as int).last() == w@[k - 1]);
        }
        k = k - 1;
    }
    proof {
        if k > 0 {
            assert(w@.take(k as int).last() == w@[k - 1]);
        }
    }
    slice_chars(w, 0, k)
}

/// A label and the rest of a line, as views.
pub open spec fn label_view(r: (Option<Vec<char>>, Vec<char>)) -> (Option<Seq<char>>, Seq<char>) {
    (
        match r.0 {
            Some(l) => Some(l@),
            None => None,
        },
        r.1@,
    )
}

/// The label that starts a line, if any, and the rest of the line.
fn extract_label(line: &[char]) -> (r: (Option<Vec<char>>, Vec<char>))
    ensures
        label_view(r) == spec_extract_label(line@),
{
    let lt = trim_end_chars(line);
    if lt.len() == 0 || line.len() == 0 || is_whitespace(line[0]) {
        return (None, lt);
    }
    let end = match find_whitespace(lt.as_slice()) {
        Some(i) => i,
        None => lt.len(),
    };
    let first = slice_chars(lt.as_slice(), 0, end);
    let name = trim_colons_exec(first.as_slice());
    let up = to_upper(name.as_slice());
    if is_mnemonic(up.as_slice()) {
        (None, lt)
    } else {
        let rest = slice_chars(lt.as_slice(), end, lt.len());
        (Some(name), rest)
    }
}

/// The upper-case mnemonic and the operand text of a statement.
fn split_mnemonic_exec(rest: &[char]) -> (r: (Vec<char>, Vec<char>))
    ensures
        (r.0@, r.1@) == split_mnemonic(rest@),
{
    let end = match find_whitespace(rest) {
        Some(i) => i,
        None => rest.len(),
    };
    let word = slice_chars(rest, 0, end);
    let tail = slice_chars(rest, end, rest.len());
    (to_upper(word.as_slice()), trim_chars(tail.as_slice()))
}

/// The directive an upper-case mnemonic names.
fn directive_of(m: &[char]) -> (r: Option<Directive>)
    ensures
        r == spec_directive(m@),
{
    if str_eq_chars("LOC", m) {
        Some(Directive::Loc)
    } else if str_eq_chars("IS", m) {
        Some(Directive::Is)
    } else if str_eq_chars("BYTE", m) {
        Some(Directive::Byte)
    } else if str_eq_chars("WYDE", m) {
        Some(Directive::Wyde)
    } else if str_eq_chars("TETRA", m) {
        Some(Directive::Tetra)
    } else if str_eq_chars("OCTA", m) {
        Some(Directive::Octa)
    } else {
        None
    }
}

fn unit_size(d: Directive) -> (u: u64)
    ensures
        u == unit_of(d),
{
    match d {
        Directive::Byte => 1,
        Directive::Wyde => 2,
        Directive::Tetra => 4,
        Directive::Octa => 8,
        _ => 0,
    }
}

/// Whether `r` is the outcome `s` on source line `line`.
pub open spec fn line_outcome<T, U>(r: Result<T, AssembleError>, s: Result<U, Seq<char>>, line: usize, same: spec_fn(T, U) -> bool) -> bool {
    match s {
        Ok(v) => r matches Ok(w) && same(w, v),
        Err(m) => r matches Err(e) && e.line == line && e.message@ == m,
    }
}

/// Where a scan for [`top_comma`] from `i` can end: at `i` or later, inside
/// the text.
proof fn lemma_top_comma_range(s: Seq<char>, i: int, inq: bool)
    requires
        0 <= i,
    ensures
        top_comma(s, i, inq) matches Some(p) ==> i <= p < s.len(),
    decreases s.len() - i,
{
    if i < s.len() {
        lemma_top_comma_range(s, i + 1, !inq);
        lemma_top_comma_range(s, i + 1, inq);
    }
}

/// The first comma outside double quotes (see [`top_comma`]).
fn find_top_comma(s: &[char]) -> (r: Option<usize>)
    ensures
        r matches Some(p) ==> p < s@.len() && top_comma(s@, 0, false) == Some(p as int),
        r is None ==> top_comma(s@, 0, false) is None,
{
    proof {
        lemma_top_comma_range(s@, 0, false);
    }
    let mut i: usize = 0;
    let mut inq = false;
    while i < s.len()
        invariant
            i <= s@.len(),
            top_comma(s@, 0, false) == top_comma(s@, i as int, inq),
        decreases s@.len() - i,
    {
        if s[i] == '"' {
            inq = !inq;
        } else if s[i] == ',' && !inq {
            return Some(i);
        }
        i = i + 1;
    }
    None
}

/// The texts held by some character vectors.
pub open spec fn views(v: Seq<Vec<char>>) -> Seq<Seq<char>> {
    v.map_values(|x: Vec<char>| x@)
}

/// Appends the operands of `rest` (see [`data_operands`]) to `ops`.
fn push_data_operands(rest: &[char], ops: &mut Vec<Vec<char>>)
    ensures
        views(final(ops)@) == views(old(ops)@) + data_operands(rest@),
    decreases rest@.len(),
{
    match find_top_comma(rest) {
        None => {
            let ghost before = views(ops@);
            ops.push(slice_chars(rest, 0, rest.len()));
            proof {
                assert(rest@.subrange(0, rest@.len() as int) =~= rest@);
                assert(views(ops@) =~= before + data_operands(rest@));
            }
        },
        Some(p) => {
            let ghost before = views(ops@);
            ops.push(slice_chars(rest, 0, p));
            assert(p < rest@.len());
            assert(rest@.len() == rest.len());
            let tail = slice_chars(rest, p + 1, rest.len());
            proof {
                assert(rest@.subrange(0, p as int) =~= rest@.take(p as int));
                assert(tail@ =~= rest@.skip(p + 1));
                assert(views(ops@) =~= before.push(rest@.take(p as int)));
            }
            let ghost mid = views(ops@);
            push_data_operands(tail.as_slice(), ops);
            proof {
                assert(views(ops@) =~= before + data_operands(rest@));
            }
        },
    }
}

/// Appends the bytes of one data operand (see [`spec_datum`]) to `out`.
fn emit_datum(op: &[char], unit: u64, line: usize, out: &mut Vec<u8>) -> (r: Result<(), AssembleError>)
    requires
        unit == 1 || unit == 2 || unit == 4 || unit == 8,
    ensures
        match spec_datum(op@, unit as nat) {
            Ok(d) => r is Ok && final(out)@ == old(out)@ + d,
            Err(m) => r matches Err(e) && e.line == line && e.message@ == m,
        },
{
    let t = trim_chars(op);
    if starts_with_chars(t.as_slice(), "\"") {
        match parse_string_literal(t.as_slice()) {
            Err(m) => Err(AssembleError { line, message: m }),
            Ok(s) => {
                let ghost start = out@;
                let mut bytes: Vec<u8> = Vec::new();
                push_utf8(&mut bytes, s.as_slice());
                assert(bytes@ =~= utf8(s@));
                let len = bytes.len() as u64;
                let pad = (unit - len % unit) % unit;
                let mut k: usize = 0;
                while k < bytes.len()
                    invariant
                        k <= bytes@.len(),
                        out@ == start + bytes@.take(k as int),
                    decreases bytes@.len() - k,
                {
                    out.push(bytes[k]);
                    k = k + 1;
                    assert(out@ =~= start + bytes@.take(k as int));
                }
                assert(bytes@.take(k as int) =~= bytes@);
                let ghost text = out@;
                let mut j: u64 = 0;
                while j < pad
                    invariant
                        j <= pad,
                        out@ == text + Seq::new(j as nat, |i: int| 0u8),
                    decreases pad - j,
                {
                    out.push(0);
                    j = j + 1;
                    assert(out@ =~= text + Seq::new(j as nat, |i: int| 0u8));
                }
                assert(pad == pad_len(bytes@.len(), unit as nat));
                assert(out@ =~= start + (utf8(s@) + Seq::new(pad_len(utf8(s@).len(), unit as nat), |i: int| 0u8)));
                Ok(())
            },
        }
    } else {
        match parse_number(op) {
            Err(m) => Err(AssembleError { line, message: m }),
            Ok(v) => {
                push_be(out, v, unit);
                Ok(())
            },
        }
    }
}

/// The number of bytes the first pass counts for one data operand (see
/// [`spec_datum_size`]).
fn datum_size(op: &[char], unit: u64, line: usize) -> (r: Result<u128, AssembleError>)
    requires
        unit == 1 || unit == 2 || unit == 4 || unit == 8,
    ensures
        line_outcome(r, spec_datum_size(op@, unit as nat), line, |w: u128, v: nat| w == v),
        r matches Ok(n) ==> n <= 0x1_0000_0000_0000_0010,
{
    let t = trim_chars(op);
    if starts_with_chars(t.as_slice(), "\"") {
        match parse_string_literal(t.as_slice()) {
            Err(m) => Err(AssembleError { line, message: m }),
            Ok(s) => {
                let mut bytes: Vec<u8> = Vec::new();
                push_utf8(&mut bytes, s.as_slice());
                assert(bytes@ =~= utf8(s@));
                let len = bytes.len() as u128;
                let u = unit as u128;
                assert(((len + u - 1) as int / u as int) * u as int <= len + u) by (nonlinear_arith)
                    requires
                        1 <= u <= 8,
                        len >= 0,
                ;
                Ok(((len + u - 1) / u) * u)
            },
        }
    } else {
        Ok(unit as u128)
    }
}

/// A cap above every location: counts beyond it are all too large alike.
pub open spec fn count_cap() -> nat {
    0x2_0000_0000_0000_0000
}

/// How many bytes a data directive emits, or [`count_cap`] if that is more.
fn count_data_bytes(args: &[char], unit: u64, line: usize) -> (r: Result<u128, AssembleError>)
    requires
        unit == 1 || unit == 2 || unit == 4 || unit == 8,
    ensures
        line_outcome(
            r,
            spec_count_data(args@, unit as nat),
            line,
            |w: u128, v: nat| w == if v < count_cap() { v } else { count_cap() },
        ),
{
    if args.len() == 0 {
        return Err(error_at(line, "data directive requires arguments"));
    }
    let mut ops: Vec<Vec<char>> = Vec::new();
    push_data_operands(args, &mut ops);
    let ghost ps = data_operands(args@);
    assert(views(ops@) =~= ps);
    let mut total: u128 = 0;
    let ghost mut acc: nat = 0;
    let mut i: usize = 0;
    proof {
        assert(ps.skip(0) =~= ps);
        match spec_count_parts(ps, unit as nat) {
            Ok(n) => assert(acc + n == n),
            Err(_) => {},
        }
    }
    while i < ops.len()
        invariant
            i <= ops@.len(),
            views(ops@) == ps,
            ps == data_operands(args@),
            args@.len() > 0,
            unit == 1 || unit == 2 || unit == 4 || unit == 8,
            total == if acc < count_cap() { acc } else { count_cap() },
            spec_count_data(args@, unit as nat) == match spec_count_parts(ps.skip(i as int), unit as nat) {
                Ok(n) => Ok(acc + n),
                Err(e) => Err(e),
            },
        decreases ops@.len() - i,
    {
        proof {
            assert(ps.skip(i as int).drop_first() =~= ps.skip(i + 1));
            assert(ps.skip(i as int)[0] == ps[i as int]);
            assert(ops@[i as int]@ == ps[i as int]);
        }
        match datum_size(ops[i].as_slice(), unit, line) {
            Err(e) => {
                return Err(e);
            },
            Ok(n) => {
                proof {
                    acc = (acc + n) as nat;
                }
                total = if total + n < 0x2_0000_0000_0000_0000u128 {
                    total + n
                } else {
                    0x2_0000_0000_0000_0000u128
                };
            },
        }
        i = i + 1;
    }
    proof {
        assert(ps.skip(i as int) =~= Seq::<Seq<char>>::empty());
    }
    Ok(total)
}

/// The bytes of a data directive (see [`spec_emit_data`]).
fn emit_data(args: &[char], unit: u64, line: usize) -> (r: Result<Vec<u8>, AssembleError>)
    requires
        unit == 1 || unit == 2 || unit == 4 || unit == 8,
    ensures
        line_outcome(r, spec_emit_data(args@, unit as nat), line, |w: Vec<u8>, v: Seq<u8>| w@ == v),
{
    let mut ops: Vec<Vec<char>> = Vec::new();
    push_data_operands(args, &mut ops);
    let ghost ps = data_operands(args@);
    assert(views(ops@) =~= ps);
    let mut out: Vec<u8> = Vec::new();
    let mut i: usize = 0;
    proof {
        assert(ps.skip(0) =~= ps);
        match spec_emit_parts(ps, unit as nat) {
            Ok(d) => assert(out@ + d =~= d),
            Err(_) => {},
        }
    }
    while i < ops.len()
        invariant
            i <= ops@.len(),
            views(ops@) == ps,
            ps == data_operands(args@),
            unit == 1 || unit == 2 || unit == 4 || unit == 8,
            spec_emit_data(args@, unit as nat) == match spec_emit_parts(ps.skip(i as int), unit as nat) {
                Ok(d) => Ok(out@ + d),
                Err(e) => Err(e),
            },
        decreases ops@.len() - i,
    {
        let ghost before = out@;
        proof {
            assert(ps.skip(i as int).drop_first() =~= ps.skip(i + 1));
            assert(ps.skip(i as int)[0] == ps[i as int]);
            assert(ops@[i as int]@ == ps[i as int]);
        }
        match emit_datum(ops[i].as_slice(), unit, line, &mut out) {
            Err(e) => {
                return Err(e);
            },
            Ok(()) => {
                proof {
                    let d0 = spec_datum(ps[i as int], unit as nat)->Ok_0;
                    match spec_emit_parts(ps.skip(i + 1), unit as nat) {
                        Ok(d) => assert(out@ + d =~= before + (d0 + d)),
                        Err(_) => {},
                    }
                }
            },
        }
        i = i + 1;
    }
    proof {
        assert(ps.skip(i as int) =~= Seq::<Seq<char>>::empty());
        assert(out@ + Seq::<u8>::empty() =~= out@);
    }
    Ok(out)
}

// ---------------------------------------------------------------------------
// Executable pass 1
// ---------------------------------------------------------------------------

/// Whether a name is one of the segment symbols.
fn is_reserved(l: &[char]) -> (r: bool)
    ensures
        r == reserved_symbols().contains_key(l@),
{
    str_eq_chars("Text_Segment", l) || str_eq_chars("Data_Segment", l) || str_eq_chars(
        "Pool_Segment",
        l,
    ) || str_eq_chars("Stack_Segment", l)
}

/// The table that holds the segment symbols and nothing else.
fn reserved_table() -> (t: SymbolTable)
    ensures
        t@ == reserved_symbols(),
{
    let mut t = SymbolTable::new();
    t.insert(chars_of("Text_Segment"), 0);
    t.insert(chars_of("Data_Segment"), 0x2000_0000_0000_0000);
    t.insert(chars_of("Pool_Segment"), 0x4000_0000_0000_0000);
    t.insert(chars_of("Stack_Segment"), 0x6000_0000_0000_0000);
    assert(t@ =~= reserved_symbols());
    t
}

/// The lines of a text as character sequences.
pub open spec fn line_views(lines: Seq<Vec<char>>) -> Seq<Seq<char>> {
    lines.map_values(|l: Vec<char>| l@)
}

/// The first pass over one line, on the symbol table `table`.
fn symbol_line_exec(
    table: &mut SymbolTable,
    lc: u64,
    entry: Option<u64>,
    raw: &[char],
    idx: usize,
) -> (r: Result<(u64, Option<u64>), AssembleError>)
    ensures
        match symbol_line(SymbolPass { labels: old(table)@, lc, entry }, raw@) {
            Ok(st) => r matches Ok(p) && final(table)@ == st.labels && p.0 == st.lc && p.1 == st.entry,
            Err(m) => r matches Err(e) && e.line == idx && e.message@ == m,
        },
{
    let line = strip_comment_exec(raw);
    if line.len() == 0 {
        return Ok((lc, entry));
    }
    let (label, rest0) = extract_label(line.as_slice());
    match &label {
        Some(l) => {
            if is_reserved(l.as_slice()) {
                let m = message3(
                    "'",
                    l.as_slice(),
                    "' is a reserved segment symbol and cannot be redefined",
                );
                return Err(AssembleError { line: idx, message: m });
            }
            if table.contains_key(l.as_slice()) {
                let m = message3("duplicate label '", l.as_slice(), "'");
                return Err(AssembleError { line: idx, message: m });
            }
        },
        None => {},
    }
    let rest = trim_chars(rest0.as_slice());
    if rest.len() == 0 {
        match label {
            Some(l) => table.insert(l, lc),
            None => {},
        }
        return Ok((lc, entry));
    }
    let (mnem, args) = split_mnemonic_exec(rest.as_slice());
    let d = directive_of(mnem.as_slice());
    match d {
        Some(Directive::Is) => match label {
            None => Err(error_at(idx, "IS requires a label")),
            Some(l) => match resolve_label_or_number(args.as_slice(), table, lc) {
                Err(m) => Err(AssembleError { line: idx, message: m }),
                Ok(v) => {
                    table.insert(l, v);
                    Ok((lc, entry))
                },
            },
        },
        Some(Directive::Loc) => match resolve_label_or_number(args.as_slice(), table, lc) {
            Err(m) => Err(AssembleError { line: idx, message: m }),
            Ok(a) => {
                match label {
                    Some(l) => table.insert(l, a),
                    None => {},
                }
                let e = if entry.is_none() {
                    Some(a)
                } else {
                    entry
                };
                Ok((a, e))
            },
        },
        _ => {
            let n: u128 = match d {
                Some(dd) => match count_data_bytes(args.as_slice(), unit_size(dd), idx) {
                    Err(e) => {
                        return Err(e);
                    },
                    Ok(n) => n,
                },
                None => 4,
            };
            match label {
                Some(l) => table.insert(l, lc),
                None => {},
            }
            if lc as u128 + n > 0xFFFF_FFFF_FFFF_FFFFu128 {
                return Err(error_at(idx, "location counter overflow"));
            }
            Ok(((lc as u128 + n) as u64, entry))
        },
    }
}

/// The first pass: the symbol table and the address of the first `LOC`.
fn collect_symbols(lines: &Vec<Vec<char>>) -> (r: Result<(SymbolTable, Option<u64>), AssembleError>)
    ensures
        match symbol_pass(line_views(lines@), 0, symbol_pass_start()) {
            Ok(st) => r matches Ok(p) && p.0@ == st.labels && p.1 == st.entry,
            Err((i, m)) => r matches Err(e) && e.line == i && e.message@ == m,
        },
{
    let ghost ls = line_views(lines@);
    let mut table = reserved_table();
    let mut lc: u64 = 0;
    let mut entry: Option<u64> = None;
    let mut i: usize = 0;
    while i < lines.len()
        invariant
            i <= lines@.len(),
            ls == line_views(lines@),
            symbol_pass(ls, 0, symbol_pass_start()) == symbol_pass(
                ls,
                i as int,
                SymbolPass { labels: table@, lc, entry },
            ),
        decreases lines@.len() - i,
    {
        assert(ls[i as int] == lines@[i as int]@);
        match symbol_line_exec(&mut table, lc, entry, lines[i].as_slice(), i) {
            Err(e) => {
                return Err(e);
            },
            Ok((l2, e2)) => {
                lc = l2;
                entry = e2;
            },
        }
        i = i + 1;
    }
    Ok((table, entry))
}

// ---------------------------------------------------------------------------
// Executable pass 2
// ---------------------------------------------------------------------------

broadcast use vstd::std_specs::hash::group_hash_axioms;

/// The address map and the line map agree: the line an address maps to
/// is recorded at that address, and every recorded address maps to a line.
pub open spec fn maps_agree(l2o: Map<usize, u64>, o2l: Map<u64, usize>) -> bool {
    &&& forall|a: u64| #[trigger] o2l.contains_key(a) ==> l2o.contains_key(o2l[a]) && l2o[o2l[a]] == a
    &&& forall|l: usize| #[trigger] l2o.contains_key(l) ==> o2l.contains_key(l2o[l])
}

/// The segments as the second pass holds them.
pub open spec fn segs_view(used: Seq<bool>, bases: Seq<u64>, bufs: Seq<Vec<u8>>) -> Seq<
    Option<(u64, Seq<u8>)>,
> {
    Seq::new(8, |k: int| if used[k] { Some((bases[k], bufs[k]@)) } else { None })
}

/// Appends `data` to the buffer `k`.
fn append_at(bufs: &mut Vec<Vec<u8>>, k: usize, data: &mut Vec<u8>)
    requires
        k < old(bufs)@.len(),
    ensures
        final(bufs)@.len() == old(bufs)@.len(),
        final(bufs)@[k as int]@ == old(bufs)@[k as int]@ + old(data)@,
        forall|j: int| 0 <= j < old(bufs)@.len() && j != k ==> final(bufs)@[j] == old(bufs)@[j],
{
    bufs[k].append(data);
}

/// The state of the second pass.
struct Emitter {
    used: Vec<bool>,
    bases: Vec<u64>,
    bufs: Vec<Vec<u8>>,
    cur_seg: usize,
    cur: u64,
    line_to_offset: HashMap<usize, u64>,
    offset_to_line: HashMap<u64, usize>,
}

impl Emitter {
    spec fn state(&self) -> EmitPass {
        EmitPass {
            segs: segs_view(self.used@, self.bases@, self.bufs@),
            cur_seg: self.cur_seg as int,
            cur: self.cur,
            line_to_offset: self.line_to_offset@,
            offset_to_line: self.offset_to_line@,
        }
    }

    /// The buffers are eight; writing goes on at the end of the current
    /// segment; no segment reaches past the address space.
    spec fn wf(&self) -> bool {
        &&& self.used@.len() == 8
        &&& self.bases@.len() == 8
        &&& self.bufs@.len() == 8
        &&& self.cur_seg < 8
        &&& self.used@[self.cur_seg as int]
        &&& self.cur == self.bases@[self.cur_seg as int] + self.bufs@[self.cur_seg as int]@.len()
        &&& forall|k: int|
            0 <= k < 8 && #[trigger] self.used@[k] ==> self.bases@[k] + self.bufs@[k]@.len()
                <= u64::MAX && segment_of(self.bases@[k]) == k
    }

    fn new(entry: u64) -> (e: Self)
        ensures
            e.wf(),
            e.state() == emit_pass_start(entry),
    {
        let seg = (entry / 0x2000_0000_0000_0000) as usize;
        let mut used: Vec<bool> = Vec::new();
        let mut bases: Vec<u64> = Vec::new();
        let mut bufs: Vec<Vec<u8>> = Vec::new();
        let mut k: usize = 0;
        while k < 8
            invariant
                k <= 8,
                seg == segment_of(entry),
                seg < 8,
                used@.len() == k,
                bases@.len() == k,
                bufs@.len() == k,
                forall|j: int| 0 <= j < k ==> (#[trigger] used@[j]) == (j == seg),
                forall|j: int| 0 <= j < k ==> (#[trigger] bases@[j]) == entry,
                forall|j: int| 0 <= j < k ==> (#[trigger] bufs@[j])@ == Seq::<u8>::empty(),
            decreases 8 - k,
        {
            used.push(k == seg);
            bases.push(entry);
            bufs.push(Vec::new());
            k = k + 1;
        }
        let e = Emitter {
            used,
            bases,
            bufs,
            cur_seg: seg,
            cur: entry,
            line_to_offset: HashMap::new(),
            offset_to_line: HashMap::new(),
        };
        assert(e.state().segs =~= emit_pass_start(entry).segs);
        e
    }

    fn record(&mut self, idx: usize)
        requires
            old(self).wf(),
        ensures
            final(self).wf(),
            final(self).state() == record_line(old(self).state(), idx),
            final(self).used@ == old(self).used@,
    {
        self.line_to_offset.insert(idx, self.cur);
        self.offset_to_line.insert(self.cur, idx);
    }

    fn write(&mut self, data: Vec<u8>, idx: usize) -> (r: Result<(), AssembleError>)
        requires
            old(self).wf(),
        ensures
            match write_data(old(self).state(), data@) {
                Ok(st) => r is Ok && final(self).wf() && final(self).state() == st,
                Err(m) => r matches Err(e) && e.line == idx && e.message@ == m,
            },
            final(self).used@ == old(self).used@,
    {
        let mut data = data;
        let n = data.len();
        if self.cur as u128 + n as u128 > 0xFFFF_FFFF_FFFF_FFFFu128 {
            return Err(error_at(idx, "location counter overflow"));
        }
        let ghost old_data = data@;
        append_at(&mut self.bufs, self.cur_seg, &mut data);
        self.cur = self.cur + n as u64;
        assert(self.state().segs =~= (write_data(old(self).state(), old_data)->Ok_0).segs);
        Ok(())
    }

    fn loc(&mut self, a: u64, idx: usize) -> (r: Result<(), AssembleError>)
        requires
            old(self).wf(),
        ensures
            match loc_move(old(self).state(), a) {
                Ok(st) => r is Ok && final(self).wf() && final(self).state() == st,
                Err(m) => r matches Err(e) && e.line == idx && e.message@ == m,
            },
            forall|j: int| 0 <= j < 8 && old(self).used@[j] ==> final(self).used@[j],
    {
        let k = (a / 0x2000_0000_0000_0000) as usize;
        if !self.used[k] {
            self.used.set(k, true);
            self.bases.set(k, a);
            self.bufs.set(k, Vec::new());
        }
        let end = self.bases[k] + self.bufs[k].len() as u64;
        if a < end {
            let mut m = String::new();
            push_str(&mut m, "LOC ");
            push_hex(&mut m, a);
            push_str(&mut m, " is before current position in segment (");
            push_hex(&mut m, end);
            push_str(&mut m, ")");
            assert(m@ =~= loc_back_msg(a, end as int));
            return Err(AssembleError { line: idx, message: m });
        }
        let gap = a - end;
        let mut zeros: Vec<u8> = Vec::new();
        let mut j: u64 = 0;
        while j < gap
            invariant
                j <= gap,
                zeros@ == Seq::new(j as nat, |i: int| 0u8),
            decreases gap - j,
        {
            zeros.push(0);
            j = j + 1;
            assert(zeros@ =~= Seq::new(j as nat, |i: int| 0u8));
        }
        let ghost z = zeros@;
        append_at(&mut self.bufs, k, &mut zeros);
        self.cur_seg = k;
        self.cur = a;
        assert(self.state().segs =~= (loc_move(old(self).state(), a)->Ok_0).segs);
        Ok(())
    }

    /// The second pass over line `idx`.
    fn line(&mut self, labels: &SymbolTable, idx: usize, raw: &[char]) -> (r: Result<(), AssembleError>)
        requires
            old(self).wf(),
            maps_agree(old(self).line_to_offset@, old(self).offset_to_line@),
            forall|k: usize| #[trigger] old(self).line_to_offset@.contains_key(k) ==> k < idx,
        ensures
            r is Ok ==> maps_agree(final(self).line_to_offset@, final(self).offset_to_line@),
            match emit_line(old(self).state(), labels@, idx, raw@) {
                Ok(st) => r is Ok && final(self).wf() && final(self).state() == st,
                Err(m) => r matches Err(e) && e.line == idx && e.message@ == m,
            },
            forall|j: int| 0 <= j < 8 && old(self).used@[j] ==> final(self).used@[j],
            r is Ok ==> forall|k: usize| #[trigger] final(self).line_to_offset@.contains_key(k)
                ==> old(self).line_to_offset@.contains_key(k) || k == idx,
    {
        let line = strip_comment_exec(raw);
        if line.len() == 0 {
            return Ok(());
        }
        let (_label, rest0) = extract_label(line.as_slice());
        let rest = trim_chars(rest0.as_slice());
        if rest.len() == 0 {
            return Ok(());
        }
        let (mnem, args) = split_mnemonic_exec(rest.as_slice());
        let d = directive_of(mnem.as_slice());
        match d {
            Some(Directive::Is) => Ok(()),
            Some(Directive::Loc) => match resolve_label_or_number(args.as_slice(), labels, self.cur) {
                Err(m) => Err(AssembleError { line: idx, message: m }),
                Ok(a) => self.loc(a, idx),
            },
            Some(dd) => {
                let unit = unit_size(dd);
                assert(unit == 1 || unit == 2 || unit == 4 || unit == 8);
                match emit_data(args.as_slice(), unit, idx) {
                    Err(e) => Err(e),
                    Ok(data) => {
                        self.record(idx);
                        self.write(data, idx)
                    },
                }
            },
            None => match lookup_mnemonic(mnem.as_slice()) {
                None => {
                    let m = message3("unknown instruction '", mnem.as_slice(), "'");
                    Err(AssembleError { line: idx, message: m })
                },
                Some(entry) => {
                    let list: Vec<Vec<char>> = if args.len() == 0 {
                        Vec::new()
                    } else {
                        split(args.as_slice(), ',')
                    };
                    assert(arg_views(list@) =~= spec_args(args@));
                    proof {
                        lemma_lookup_encodable(mnem@);
                    }
                    let w = match entry {
                        InstrEntry::Real { base_op, format } => encode_instruction(
                            base_op,
                            format,
                            list.as_slice(),
                            self.cur,
                            labels,
                            idx,
                        ),
                        InstrEntry::Alias(l) => encode_alias(
                            &l,
                            list.as_slice(),
                            self.cur,
                            labels,
                            idx,
                        ),
                    };
                    match w {
                        Err(e) => Err(e),
                        Ok(w) => {
                            let mut data: Vec<u8> = Vec::new();
                            push_be(&mut data, w as u64, 4);
                            assert(data@ =~= be_bytes(w as nat, 4));
                            self.record(idx);
                            self.write(data, idx)
                        },
                    }
                },
            },
        }
    }
}

// ---------------------------------------------------------------------------
// Assembling
// ---------------------------------------------------------------------------

/// A contiguous run of bytes from `base` on.
#[derive(Debug)]
pub struct Segment {
    pub base: u64,
    pub bytes: Vec<u8>,
}

/// An assembled program with the maps between source lines and addresses.
#[derive(Debug)]
pub struct AssembleResult {
    /// The bytes of the segment that starts at the entry address.
    pub bytes: Vec<u8>,
    /// Every segment the program wrote, in the order of their addresses.
    pub segments: Vec<Segment>,
    /// Source line index -> address of what the line emits.
    pub line_to_offset: HashMap<usize, u64>,
    /// Address -> source line index.
    pub offset_to_line: HashMap<u64, usize>,
    /// The address of the first `LOC`, or 0.
    pub entry_addr: u64,
}

/// The segments as (base, bytes) pairs.
pub open spec fn segment_views(v: Seq<Segment>) -> Seq<(u64, Seq<u8>)> {
    v.map_values(|s: Segment| (s.base, s.bytes@))
}

/// The second pass over all lines.
fn emit_code(lines: &Vec<Vec<char>>, labels: &SymbolTable, entry: u64) -> (r: Result<Emitter, AssembleError>)
    ensures
        match emit_pass(line_views(lines@), 0, labels@, emit_pass_start(entry)) {
            Ok(st) => r matches Ok(em) && em.wf() && em.state() == st,
            Err((i, m)) => r matches Err(e) && e.line == i && e.message@ == m,
        },
        r matches Ok(em) ==> em.used@[segment_of(entry)],
        r matches Ok(em) ==> forall|k: usize| #[trigger] em.line_to_offset@.contains_key(k) ==> k
            < lines@.len(),
        r matches Ok(em) ==> maps_agree(em.line_to_offset@, em.offset_to_line@),
{
    let ghost ls = line_views(lines@);
    let mut em = Emitter::new(entry);
    let mut i: usize = 0;
    while i < lines.len()
        invariant
            i <= lines@.len(),
            ls == line_views(lines@),
            em.wf(),
            em.used@[segment_of(entry)],
            forall|k: usize| #[trigger] em.line_to_offset@.contains_key(k) ==> k < i,
            maps_agree(em.line_to_offset@, em.offset_to_line@),
            emit_pass(ls, 0, labels@, emit_pass_start(entry)) == emit_pass(
                ls,
                i as int,
                labels@,
                em.state(),
            ),
        decreases lines@.len() - i,
    {
        assert(ls[i as int] == lines@[i as int]@);
        match em.line(labels, i, lines[i].as_slice()) {
            Err(e) => {
                return Err(e);
            },
            Ok(()) => {},
        }
        i = i + 1;
    }
    Ok(em)
}

/// Assembles MMIXAL source text: the bytes of each segment written, the
/// maps between source lines and addresses, and the entry address; or the
/// first error with its line.
pub fn assemble(source: &str) -> (r: Result<AssembleResult, AssembleError>)
    ensures
        match spec_assemble(source@) {
            Ok(a) => r matches Ok(res) && res.bytes@ == a.bytes && segment_views(res.segments@)
                == a.segments && res.line_to_offset@ == a.line_to_offset && res.offset_to_line@
                == a.offset_to_line && res.entry_addr == a.entry,
            Err((i, m)) => r matches Err(e) && e.line == i && e.message@ == m,
        },
        r matches Ok(res) ==> forall|k: usize| #[trigger] res.line_to_offset@.contains_key(k) <==> (k
            < text_lines(source@).len() && emits_line(text_lines(source@)[k as int])),
        r matches Ok(res) ==> maps_agree(res.line_to_offset@, res.offset_to_line@),
        r matches Ok(res) ==> forall|i: int, j: int|
            0 <= i < j < res.segments@.len() ==> res.segments@[i].base < res.segments@[j].base,
{
    let text = chars_of(source);
    let lines = text_lines_exec(text.as_slice());
    assert(line_views(lines@) =~= text_lines(source@));
    let (labels, first_loc) = match collect_symbols(&lines) {
        Err(e) => {
            return Err(e);
        },
        Ok(p) => p,
    };
    let entry = match first_loc {
        Some(e) => e,
        None => 0,
    };
    let em = match emit_code(&lines, &labels, entry) {
        Err(e) => {
            return Err(e);
        },
        Ok(em) => em,
    };
    let ghost st = em.state();
    let nlines = lines.len();
    proof {
        assert(line_views(lines@).len() == nlines);
        lemma_emit_pass_records(line_views(lines@), 0, labels@, emit_pass_start(entry));
    }
    let ghost entry_seg = segment_of(entry);
    let Emitter { used, bases, mut bufs, line_to_offset, offset_to_line, .. } = em;
    let ghost gb = bufs@;
    let entry_k = (entry / 0x2000_0000_0000_0000) as usize;
    let mut segments: Vec<Segment> = Vec::new();
    let mut bytes: Vec<u8> = Vec::new();
    let mut k: usize = 0;
    while k < 8
        invariant
            k <= 8,
            used@.len() == 8,
            bases@.len() == 8,
            gb.len() == 8,
            bufs@.len() == 8 - k,
            entry_k == entry_seg,
            entry_k < 8,
            used@[entry_k as int],
            st.segs == segs_view(used@, bases@, gb),
            forall|j: int| 0 <= j < 8 - k ==> (#[trigger] bufs@[j]) == gb[j + k],
            segment_views(segments@) + entered(st.segs, k as int) == entered(st.segs, 0),
            k > entry_k ==> bytes@ == gb[entry_k as int]@,
            forall|j: int| 0 <= j < 8 && #[trigger] used@[j] ==> segment_of(bases@[j]) == j,
            forall|i: int| 0 <= i < segments@.len() ==> segment_of(#[trigger] segments@[i].base) < k,
            forall|i: int, j: int|
                0 <= i < j < segments@.len() ==> segments@[i].base < segments@[j].base,
        decreases 8 - k,
    {
        let ghost ob = bufs@;
        let b = bufs.remove(0);
        assert(b == gb[k as int]);
        if k == entry_k {
            bytes = copy_bytes(&b);
        }
        let ghost before = segments@;
        if used[k] {
            segments.push(Segment { base: bases[k], bytes: b });
            assert(segment_views(segments@) =~= segment_views(before) + seq![(bases@[k as int], gb[k as int]@)]);
        }
        proof {
            assert(st.segs[k as int] == if used@[k as int] { Some((bases@[k as int], gb[k as int]@)) } else { None::<(u64, Seq<u8>)> });
            assert forall|j: int| 0 <= j < 8 - (k + 1) implies (#[trigger] bufs@[j]) == gb[j + k + 1] by {
                assert(bufs@[j] == ob[j + 1]);
            }
        }
        k = k + 1;
    }
    assert(segment_views(segments@) =~= entered(st.segs, 0));
    Ok(AssembleResult { bytes, segments, line_to_offset, offset_to_line, entry_addr: entry })
}

/// A copy of a byte buffer.
fn copy_bytes(b: &Vec<u8>) -> (r: Vec<u8>)
    ensures
        r@ == b@,
{
    let mut r: Vec<u8> = Vec::new();
    let mut i: usize = 0;
    while i < b.len()
        invariant
            i <= b@.len(),
            r@ == b@.take(i as int),
        decreases b@.len() - i,
    {
        r.push(b[i]);
        i = i + 1;
        assert(r@ =~= b@.take(i as int));
    }
    assert(b@.take(i as int) =~= b@);
    r
}

// ---------------------------------------------------------------------------
// Labels and addresses
// ---------------------------------------------------------------------------

/// Each operand emits as many bytes as the first pass counts for it.
proof fn lemma_emit_parts_len(parts: Seq<Seq<char>>, unit: nat)
    requires
        unit == 1 || unit == 2 || unit == 4 || unit == 8,
        spec_emit_parts(parts, unit) is Ok,
    ensures
        spec_count_parts(parts, unit) == Ok::<nat, Seq<char>>((spec_emit_parts(parts, unit)->Ok_0).len()),
    decreases parts.len(),
{
    if parts.len() > 0 {
        lemma_emit_parts_len(parts.drop_first(), unit);
        let op = parts[0];
        if is_string_operand(op) {
            let s = spec_parse_string_literal(trim(op))->Ok_0;
            let l = utf8(s).len();
            let p = pad_len(l, unit);
            assert(padded(l, unit) == l + p) by (nonlinear_arith)
                requires
                    unit == 1 || unit == 2 || unit == 4 || unit == 8,
                    p == ((unit - l % unit) as int % (unit as int)) as nat,
                    padded(l, unit) == (((l + unit - 1) / unit as int) * unit) as nat,
            ;
        } else {
            crate::memory::lemma_be_bytes_len((spec_parse_number(op)->Ok_0) as nat, unit);
        }
    }
}

/// What a data directive emits is as long as the first pass counts.
pub proof fn lemma_data_len(args: Seq<char>, unit: nat)
    requires
        unit == 1 || unit == 2 || unit == 4 || unit == 8,
        spec_emit_data(args, unit) is Ok,
    ensures
        spec_count_data(args, unit) == Ok::<nat, Seq<char>>((spec_emit_data(args, unit)->Ok_0).len()),
{
    reveal_strlit("\"");
    reveal_strlit("0x");
    reveal_strlit("0X");
    reveal_strlit("#");
    reveal_strlit("-");
    lemma_emit_parts_len(data_operands(args), unit);
    if args.len() == 0 {
        assert(top_comma(args, 0, false) is None);
        assert(data_operands(args) == seq![Seq::<char>::empty()]);
        assert(trim(Seq::<char>::empty()) == Seq::<char>::empty());
        assert(!is_string_operand(Seq::<char>::empty()));
        assert(spec_parse_number(Seq::<char>::empty()) is Err);
    }
}

/// The label a source line defines, if any.
pub open spec fn line_label(raw: Seq<char>) -> Option<Seq<char>> {
    let line = strip_comment(raw);
    if line.len() == 0 {
        None
    } else {
        spec_extract_label(line).0
    }
}

/// Whether a source line is a `LOC` directive.
pub open spec fn is_loc_line(raw: Seq<char>) -> bool {
    let line = strip_comment(raw);
    let rest = trim(spec_extract_label(line).1);
    line.len() > 0 && rest.len() > 0 && spec_directive(split_mnemonic(rest).0) == Some(Directive::Loc)
}

/// The first pass only adds symbols.
proof fn lemma_symbol_line_grows(st: SymbolPass, raw: Seq<char>)
    requires
        symbol_line(st, raw) is Ok,
    ensures
        st.labels.submap_of((symbol_line(st, raw)->Ok_0).labels),
        st.entry is Some ==> (symbol_line(st, raw)->Ok_0).entry == st.entry,
        !is_loc_line(raw) ==> (symbol_line(st, raw)->Ok_0).entry == st.entry,
{
}

/// The first pass only adds symbols, and keeps the entry address once set.
proof fn lemma_symbol_pass_grows(lines: Seq<Seq<char>>, i: int, st: SymbolPass)
    requires
        symbol_pass(lines, i, st) is Ok,
    ensures
        st.labels.submap_of((symbol_pass(lines, i, st)->Ok_0).labels),
        st.entry is Some ==> (symbol_pass(lines, i, st)->Ok_0).entry == st.entry,
        (forall|k: int| i <= k < lines.len() ==> !is_loc_line(#[trigger] lines[k])) ==> (symbol_pass(
            lines,
            i,
            st,
        )->Ok_0).entry == st.entry,
    decreases lines.len() - i,
{
    if 0 <= i < lines.len() {
        let n = symbol_line(st, lines[i])->Ok_0;
        let f = symbol_pass(lines, i, st)->Ok_0;
        lemma_symbol_line_grows(st, lines[i]);
        lemma_symbol_pass_grows(lines, i + 1, n);
        assert forall|k: Seq<char>| #[trigger] st.labels.contains_key(k) implies f.labels.contains_key(k)
            && st.labels[k] == f.labels[k] by {
            assert(n.labels.contains_key(k));
        }
    }
}

/// A key of a submap has the same value in the larger map.
proof fn lemma_submap_at(m: Map<Seq<char>, u64>, big: Map<Seq<char>, u64>, k: Seq<char>)
    requires
        m.submap_of(big),
        m.contains_key(k),
    ensures
        big.contains_key(k),
        big[k] == m[k],
{
    assert(m.dom().contains(k) && big.dom().contains(k));
}

/// A location that resolves with some symbols resolves alike with more.
proof fn lemma_resolve_mono(args: Seq<char>, l1: Map<Seq<char>, u64>, l2: Map<Seq<char>, u64>, cur: u64)
    requires
        spec_resolve(args, l1, cur) is Ok,
        l1.submap_of(l2),
    ensures
        spec_resolve(args, l2, cur) == spec_resolve(args, l1, cur),
{
    let t = trim(args);
    if t != "@"@ && !crate::parse::looks_numeric(t) {
        assert(l1.contains_key(t));
    }
}

/// Whether a source line emits code or data.
pub open spec fn emits_line(raw: Seq<char>) -> bool {
    let line = strip_comment(raw);
    let rest = trim(spec_extract_label(line).1);
    &&& line.len() > 0
    &&& rest.len() > 0
    &&& match spec_directive(split_mnemonic(rest).0) {
        Some(Directive::Is) => false,
        Some(Directive::Loc) => false,
        _ => true,
    }
}

/// The second pass records a line exactly when it emits code or data.
proof fn lemma_emit_line_records(st: EmitPass, labels: Map<Seq<char>, u64>, idx: usize, raw: Seq<char>)
    requires
        emit_line(st, labels, idx, raw) is Ok,
    ensures
        (emit_line(st, labels, idx, raw)->Ok_0).line_to_offset == if emits_line(raw) {
            st.line_to_offset.insert(idx, st.cur)
        } else {
            st.line_to_offset
        },
{
}

/// The lines that the second pass records from line `i` on are those that
/// emit code or data.
proof fn lemma_emit_pass_records(lines: Seq<Seq<char>>, i: int, labels: Map<Seq<char>, u64>, st: EmitPass)
    requires
        0 <= i <= lines.len() <= usize::MAX,
        emit_pass(lines, i, labels, st) is Ok,
    ensures
        forall|j: usize|
            #[trigger] (emit_pass(lines, i, labels, st)->Ok_0).line_to_offset.contains_key(j) <==> (
            st.line_to_offset.contains_key(j) || (i <= j < lines.len() && emits_line(lines[j as int]))),
    decreases lines.len() - i,
{
    if i < lines.len() {
        let n = emit_line(st, labels, i as usize, lines[i])->Ok_0;
        lemma_emit_line_records(st, labels, i as usize, lines[i]);
        lemma_emit_pass_records(lines, i + 1, labels, n);
    }
}

/// After one line both passes stand at the same address, and a line the
/// second pass records carries a label whose value is that address.
pub open spec fn line_agrees(st1: SymbolPass, st2: EmitPass, fin: Map<Seq<char>, u64>, idx: usize, raw: Seq<char>) -> bool {
    let n1 = symbol_line(st1, raw)->Ok_0;
    let n2 = emit_line(st2, fin, idx, raw)->Ok_0;
    &&& n1.lc == n2.cur
    &&& n2.line_to_offset == st2.line_to_offset || (n2.line_to_offset == st2.line_to_offset.insert(idx, st2.cur)
        && (line_label(raw) matches Some(l) ==> fin.contains_key(l) && fin[l] == st2.cur))
}

/// One line: both passes advance the address alike, and a
/// line the second pass records at an address carries a label whose value
/// is that address.
#[verifier::spinoff_prover]
#[verifier::rlimit(40)]
proof fn lemma_line_agree(st1: SymbolPass, st2: EmitPass, fin: Map<Seq<char>, u64>, idx: usize, raw: Seq<char>)
    requires
        symbol_line(st1, raw) is Ok,
        emit_line(st2, fin, idx, raw) is Ok,
        (symbol_line(st1, raw)->Ok_0).labels.submap_of(fin),
        st1.labels.submap_of(fin),
        st1.lc == st2.cur,
    ensures
        line_agrees(st1, st2, fin, idx, raw),
{
    let line = strip_comment(raw);
    if line.len() > 0 {
        let (label, rest0) = spec_extract_label(line);
        let rest = trim(rest0);
        if rest.len() > 0 {
            let (mnem, args) = split_mnemonic(rest);
            match spec_directive(mnem) {
                Some(Directive::Is) => {
                    assert(line_agrees(st1, st2, fin, idx, raw));
                },
                Some(Directive::Loc) => {
                    lemma_resolve_mono(args, st1.labels, fin, st1.lc);
                    let a = spec_resolve(args, st1.labels, st1.lc)->Ok_0;
                    assert(spec_resolve(args, fin, st2.cur) == Ok::<u64, Seq<char>>(a));
                    assert(symbol_line(st1, raw)->Ok_0.lc == a);
                    assert(emit_line(st2, fin, idx, raw) == loc_move(st2, a));
                    assert(emit_line(st2, fin, idx, raw)->Ok_0.cur == a);
                    assert(emit_line(st2, fin, idx, raw)->Ok_0.line_to_offset == st2.line_to_offset);
                    assert(line_agrees(st1, st2, fin, idx, raw));
                },
                Some(d) => {
                    lemma_data_len(args, unit_of(d));
                    let data = spec_emit_data(args, unit_of(d))->Ok_0;
                    assert(line_label(raw) == label);
                    if let Some(l) = label {
                        assert((symbol_line(st1, raw)->Ok_0).labels == st1.labels.insert(l, st1.lc));
                        lemma_submap_at(symbol_line(st1, raw)->Ok_0.labels, fin, l);
                        assert(fin[l] == st1.lc);
                    }
                    assert(symbol_line(st1, raw)->Ok_0.lc == st1.lc + data.len());
                    assert(emit_line(st2, fin, idx, raw) == write_data(record_line(st2, idx), data));
                    assert(emit_line(st2, fin, idx, raw)->Ok_0.cur == st2.cur + data.len());
                    assert(line_agrees(st1, st2, fin, idx, raw));
                },
                None => {
                    assert(line_label(raw) == label);
                    if let Some(l) = label {
                        assert((symbol_line(st1, raw)->Ok_0).labels == st1.labels.insert(l, st1.lc));
                        lemma_submap_at(symbol_line(st1, raw)->Ok_0.labels, fin, l);
                        assert(fin[l] == st1.lc);
                    }
                    let w = match spec_lookup(mnem)->Some_0 {
                        InstrEntry::Real { base_op, format } => spec_encode_instruction(
                            base_op,
                            format,
                            spec_args(args),
                            st2.cur,
                            fin,
                        ),
                        InstrEntry::Alias(l) => spec_encode_alias(l, spec_args(args), st2.cur, fin),
                    };
                    crate::memory::lemma_be_bytes_len((w->Ok_0) as nat, 4);
                    assert(symbol_line(st1, raw)->Ok_0.lc == st1.lc + 4);
                    assert(emit_line(st2, fin, idx, raw) == write_data(
                        record_line(st2, idx),
                        be_bytes((w->Ok_0) as nat, 4),
                    ));
                    assert(emit_line(st2, fin, idx, raw)->Ok_0.cur == st2.cur + 4);
                    assert(line_agrees(st1, st2, fin, idx, raw));
                },
            }
        }
    }
}

/// From line `i` on, every line the second pass records
/// carries a label whose value is the address it is recorded at.
proof fn lemma_passes_agree(
    lines: Seq<Seq<char>>,
    i: int,
    st1: SymbolPass,
    st2: EmitPass,
    fin: Map<Seq<char>, u64>,
)
    requires
        0 <= i <= lines.len() <= usize::MAX,
        symbol_pass(lines, i, st1) is Ok,
        (symbol_pass(lines, i, st1)->Ok_0).labels == fin,
        emit_pass(lines, i, fin, st2) is Ok,
        st1.lc == st2.cur,
        forall|j: usize| #[trigger] st2.line_to_offset.contains_key(j) ==> j < i,
        forall|j: usize| #[trigger]
            st2.line_to_offset.contains_key(j) ==> (line_label(lines[j as int]) matches Some(l)
                ==> fin.contains_key(l) && fin[l] == st2.line_to_offset[j]),
    ensures
        ({
            let f2 = emit_pass(lines, i, fin, st2)->Ok_0;
            forall|j: usize| #[trigger]
                f2.line_to_offset.contains_key(j) ==> (line_label(lines[j as int]) matches Some(l)
                    ==> fin.contains_key(l) && fin[l] == f2.line_to_offset[j])
        }),
    decreases lines.len() - i,
{
    if i < lines.len() {
        let raw = lines[i];
        let n1 = symbol_line(st1, raw)->Ok_0;
        let n2 = emit_line(st2, fin, i as usize, raw)->Ok_0;
        lemma_symbol_pass_grows(lines, i, st1);
        lemma_symbol_pass_grows(lines, i + 1, n1);
        lemma_line_agree(st1, st2, fin, i as usize, raw);
        assert forall|j: usize| #[trigger] n2.line_to_offset.contains_key(j) implies (line_label(
            lines[j as int],
        ) matches Some(l) ==> fin.contains_key(l) && fin[l] == n2.line_to_offset[j]) by {
            if j != i as usize {
                assert(st2.line_to_offset.contains_key(j));
            }
        }
        lemma_passes_agree(lines, i + 1, n1, n2, fin);
    }
}

/// Up to the first `LOC`, where no line emits anything, the first pass
/// counts from 0 and the second from the entry address; from that `LOC` on
/// both stand at the same address, so every line the second pass records
/// carries a label whose value is the address it is recorded at.
proof fn lemma_prefix_agree(
    lines: Seq<Seq<char>>,
    i: int,
    st1: SymbolPass,
    st2: EmitPass,
    fin: Map<Seq<char>, u64>,
)
    requires
        0 <= i <= lines.len() <= usize::MAX,
        symbol_pass(lines, i, st1) is Ok,
        (symbol_pass(lines, i, st1)->Ok_0).labels == fin,
        (symbol_pass(lines, i, st1)->Ok_0).entry == Some(st2.cur),
        emit_pass(lines, i, fin, st2) is Ok,
        st1.lc == 0,
        st1.entry is None,
        st2.line_to_offset == Map::<usize, u64>::empty(),
        forall|k: int|
            i <= k < lines.len() && #[trigger] emits_line(lines[k]) ==> exists|j: int|
                i <= j < k && is_loc_line(#[trigger] lines[j]),
    ensures
        ({
            let f2 = emit_pass(lines, i, fin, st2)->Ok_0;
            forall|j: usize| #[trigger]
                f2.line_to_offset.contains_key(j) ==> (line_label(lines[j as int]) matches Some(l)
                    ==> fin.contains_key(l) && fin[l] == f2.line_to_offset[j])
        }),
    decreases lines.len() - i,
{
    if i < lines.len() {
        let raw = lines[i];
        let n1 = symbol_line(st1, raw)->Ok_0;
        let n2 = emit_line(st2, fin, i as usize, raw)->Ok_0;
        lemma_symbol_pass_grows(lines, i, st1);
        lemma_symbol_pass_grows(lines, i + 1, n1);
        assert(!emits_line(raw) || is_loc_line(raw)) by {
            if emits_line(raw) {
                let j = choose|j: int| i <= j < i && is_loc_line(#[trigger] lines[j]);
            }
        }
        if is_loc_line(raw) {
            let line = strip_comment(raw);
            let rest = trim(spec_extract_label(line).1);
            let args = split_mnemonic(rest).1;
            let a = spec_resolve(args, st1.labels, st1.lc)->Ok_0;
            assert(n1.lc == a);
            assert(n1.entry == Some(a));
            assert(st2.cur == a);
            if trim(args) != "@"@ {
                lemma_resolve_mono(args, st1.labels, fin, st1.lc);
                assert(spec_resolve(args, fin, st2.cur) == spec_resolve(args, fin, st1.lc));
            }
            assert(n2.cur == a);
            assert(n2.line_to_offset == st2.line_to_offset);
            lemma_passes_agree(lines, i + 1, n1, n2, fin);
        } else {
            assert(n1.lc == st1.lc && n1.entry == st1.entry);
            assert(n2 == st2);
            assert forall|k: int|
                i + 1 <= k < lines.len() && #[trigger] emits_line(lines[k]) implies exists|j: int|
                    i + 1 <= j < k && is_loc_line(#[trigger] lines[j]) by {
                let j = choose|j: int| i <= j < k && is_loc_line(#[trigger] lines[j]);
                assert(j != i);
                assert(i + 1 <= j < k && is_loc_line(lines[j]));
            }
            lemma_prefix_agree(lines, i + 1, n1, n2, fin);
        }
    }
}

/// In a program without `LOC`, or one in which every line that emits code
/// or data comes after a `LOC`, the value of the label on a line that emits
/// code or data is the address where that code or data lies.
pub proof fn lemma_labels_are_addresses(source: Seq<char>)
    requires
        spec_assemble(source) is Ok,
        text_lines(source).len() <= usize::MAX,
        (forall|k: int| 0 <= k < text_lines(source).len() ==> !is_loc_line(#[trigger] text_lines(source)[k]))
            || (forall|k: int|
            0 <= k < text_lines(source).len() && #[trigger] emits_line(text_lines(source)[k])
                ==> exists|j: int| 0 <= j < k && is_loc_line(#[trigger] text_lines(source)[j])),
    ensures
        ({
            let lines = text_lines(source);
            let labels = (symbol_pass(lines, 0, symbol_pass_start())->Ok_0).labels;
            let a = spec_assemble(source)->Ok_0;
            forall|j: usize| #[trigger]
                a.line_to_offset.contains_key(j) ==> (line_label(lines[j as int]) matches Some(l)
                    ==> labels.contains_key(l) && labels[l] == a.line_to_offset[j])
        }),
{
    let lines = text_lines(source);
    lemma_symbol_pass_grows(lines, 0, symbol_pass_start());
    let st = symbol_pass(lines, 0, symbol_pass_start())->Ok_0;
    let fin = st.labels;
    match st.entry {
        None => {
            lemma_passes_agree(lines, 0, symbol_pass_start(), emit_pass_start(0), fin);
        },
        Some(e) => {
            lemma_prefix_agree(lines, 0, symbol_pass_start(), emit_pass_start(e), fin);
        },
    }
}

} // verus!
