//! Operand parsing for the assembler: registers, numbers, special-register
//! names, string literals and symbols.

use crate::register::{reg_at, spec_encoding, spec_reg_name, SpecialRegister};
use crate::text::{
    chars_eq, decimal, find, find_char, is_digit, is_ws, lower_text, push_chars, push_decimal,
    push_str, slice_chars, str_eq_chars, to_lower, trim, trim_chars, trim_end, trim_start,
};
use vstd::prelude::*;

verus! {

/// Why a digit string is not an integer of the wanted type (the kinds of
/// `core::num::ParseIntError`).
#[derive(Debug, Clone, Copy, PartialEq, Eq, Structural)]
pub enum IntError {
    Empty,
    InvalidDigit,
    PosOverflow,
    NegOverflow,
}

/// The text of each kind of integer error.
pub open spec fn int_error_text(e: IntError) -> Seq<char> {
    match e {
        IntError::Empty => "cannot parse integer from empty string"@,
        IntError::InvalidDigit => "invalid digit found in string"@,
        IntError::PosOverflow => "number too large to fit in target type"@,
        IntError::NegOverflow => "number too small to fit in target type"@,
    }
}

fn push_int_error(s: &mut String, e: IntError)
    ensures
        final(s)@ == old(s)@ + int_error_text(e),
{
    match e {
        IntError::Empty => push_str(s, "cannot parse integer from empty string"),
        IntError::InvalidDigit => push_str(s, "invalid digit found in string"),
        IntError::PosOverflow => push_str(s, "number too large to fit in target type"),
        IntError::NegOverflow => push_str(s, "number too small to fit in target type"),
    }
}

/// The value of a digit character in a base of at most 16.
pub open spec fn digit_value(c: char, radix: nat) -> Option<nat> {
    let d: int = if '0' <= c <= '9' {
        c as int - 48
    } else if 'a' <= c <= 'z' {
        c as int - 87
    } else if 'A' <= c <= 'Z' {
        c as int - 55
    } else {
        radix as int
    };
    if d < radix {
        Some(d as nat)
    } else {
        None
    }
}

/// Reads digits left to right onto `acc`; a value above `max` is the
/// error `over`.
pub open spec fn accumulate(ds: Seq<char>, radix: nat, max: nat, acc: nat, over: IntError) -> Result<
    nat,
    IntError,
>
    decreases ds.len(),
{
    if ds.len() == 0 {
        Ok(acc)
    } else {
        match digit_value(ds[0], radix) {
            None => Err(IntError::InvalidDigit),
            Some(d) => if acc * radix + d > max {
                Err(over)
            } else {
                accumulate(ds.drop_first(), radix, max, acc * radix + d, over)
            },
        }
    }
}

/// What the digit reader accepts never exceeds its limit.
pub proof fn lemma_accumulate_le(ds: Seq<char>, radix: nat, max: nat, acc: nat, over: IntError)
    requires
        acc <= max,
    ensures
        accumulate(ds, radix, max, acc, over) matches Ok(v) ==> v <= max,
    decreases ds.len(),
{
    if ds.len() > 0 {
        if let Some(d) = digit_value(ds[0], radix) {
            if acc * radix + d <= max {
                lemma_accumulate_le(ds.drop_first(), radix, max, acc * radix + d, over);
            }
        }
    }
}

/// An unsigned integer no larger than `max` in base `radix`, with an
/// optional leading `+` (`from_str_radix` for unsigned types).
pub open spec fn parse_unsigned(s: Seq<char>, radix: nat, max: nat) -> Result<nat, IntError> {
    if s.len() == 0 {
        Err(IntError::Empty)
    } else if s.len() == 1 && (s[0] == '+' || s[0] == '-') {
        Err(IntError::InvalidDigit)
    } else if s[0] == '+' {
        accumulate(s.drop_first(), radix, max, 0, IntError::PosOverflow)
    } else {
        accumulate(s, radix, max, 0, IntError::PosOverflow)
    }
}

/// A negative decimal `i64` written with a leading `-`, as a word.
pub open spec fn parse_negative(s: Seq<char>) -> Result<u64, IntError> {
    if s.len() == 1 {
        Err(IntError::InvalidDigit)
    } else {
        match accumulate(s.drop_first(), 10, 0x8000_0000_0000_0000, 0, IntError::NegOverflow) {
            Ok(m) => Ok(if m == 0 {
                0u64
            } else {
                (0x1_0000_0000_0000_0000 - m) as u64
            }),
            Err(e) => Err(e),
        }
    }
}

pub open spec fn starts_with(s: Seq<char>, p: Seq<char>) -> bool {
    p.len() <= s.len() && s.take(p.len() as int) == p
}

/// A number: `0x`/`0X`/`#` hexadecimal, negative decimal (as its two's
/// complement word), or unsigned decimal.
pub open spec fn spec_parse_number(s: Seq<char>) -> Result<u64, Seq<char>> {
    let t = trim(s);
    if starts_with(t, "0x"@) || starts_with(t, "0X"@) {
        match parse_unsigned(t.skip(2), 16, u64::MAX as nat) {
            Ok(v) => Ok(v as u64),
            Err(e) => Err("invalid hex '"@ + t + "': "@ + int_error_text(e)),
        }
    } else if starts_with(t, "#"@) {
        match parse_unsigned(t.skip(1), 16, u64::MAX as nat) {
            Ok(v) => Ok(v as u64),
            Err(e) => Err("invalid hex '"@ + t + "': "@ + int_error_text(e)),
        }
    } else if starts_with(t, "-"@) {
        match parse_negative(t) {
            Ok(v) => Ok(v),
            Err(e) => Err("invalid number '"@ + t + "': "@ + int_error_text(e)),
        }
    } else {
        match parse_unsigned(t, 10, u64::MAX as nat) {
            Ok(v) => Ok(v as u64),
            Err(e) => Err("invalid number '"@ + t + "': "@ + int_error_text(e)),
        }
    }
}

/// A register `$n` with `n` in `0..=255`.
pub open spec fn spec_parse_reg(s: Seq<char>) -> Result<u8, Seq<char>> {
    let t = trim(s);
    if !starts_with(t, "$"@) {
        Err("expected register (e.g. $0), got '"@ + t + "'"@)
    } else {
        match parse_unsigned(t.skip(1), 10, 255) {
            Ok(v) => Ok(v as u8),
            Err(_) => Err("invalid register '"@ + t + "'"@),
        }
    }
}

/// A register, or an immediate of at most 255; `true` marks the immediate.
pub open spec fn spec_parse_reg_or_imm(s: Seq<char>) -> Result<(u8, bool), Seq<char>> {
    let t = trim(s);
    if starts_with(t, "$"@) {
        match spec_parse_reg(t) {
            Ok(r) => Ok((r, false)),
            Err(e) => Err(e),
        }
    } else {
        match spec_parse_number(t) {
            Ok(v) => if v > 255 {
                Err("immediate "@ + decimal(v as nat) + " out of range 0..255"@)
            } else {
                Ok((v as u8, true))
            },
            Err(e) => Err(e),
        }
    }
}

/// Whether an operand is read as a number rather than as a symbol.
pub open spec fn looks_numeric(t: Seq<char>) -> bool {
    starts_with(t, "$"@) || starts_with(t, "#"@) || starts_with(t, "0x"@) || starts_with(t, "0X"@)
        || starts_with(t, "-"@) || (t.len() > 0 && is_digit(t[0]))
}

/// The value of an operand: `@` is the current address, a numeric operand is
/// a number, anything else is a symbol of the table.
pub open spec fn spec_resolve(s: Seq<char>, labels: Map<Seq<char>, u64>, cur: u64) -> Result<
    u64,
    Seq<char>,
> {
    let t = trim(s);
    if t == "@"@ {
        Ok(cur)
    } else if looks_numeric(t) {
        spec_parse_number(t)
    } else if labels.contains_key(t) {
        Ok(labels[t])
    } else {
        Err("undefined label '"@ + t + "'"@)
    }
}

/// A register, or an immediate of at most 255 that may be a symbol.
pub open spec fn spec_parse_reg_or_imm_with_labels(
    s: Seq<char>,
    labels: Map<Seq<char>, u64>,
    cur: u64,
) -> Result<(u8, bool), Seq<char>> {
    let t = trim(s);
    if starts_with(t, "$"@) {
        match spec_parse_reg(t) {
            Ok(r) => Ok((r, false)),
            Err(e) => Err(e),
        }
    } else {
        match spec_resolve(t, labels, cur) {
            Ok(v) => if v > 255 {
                Err("immediate "@ + decimal(v as nat) + " out of range 0..255"@)
            } else {
                Ok((v as u8, true))
            },
            Err(e) => Err(e),
        }
    }
}

/// The special register at each position of [`SpecialRegister::ALL`].
pub open spec fn special_at(i: int) -> SpecialRegister
    recommends
        0 <= i < 32,
{
    crate::register::spec_reg_at(i)
}

/// The first special register, in the order of [`SpecialRegister::ALL`]
/// from position `i` on, whose name is `t`.
pub open spec fn find_special(t: Seq<char>, i: int) -> Option<SpecialRegister>
    decreases 32 - i,
{
    if i >= 32 || i < 0 {
        None
    } else if spec_reg_name(special_at(i))@ == t {
        Some(special_at(i))
    } else {
        find_special(t, i + 1)
    }
}

/// A special register by its name (any letter case), or its number.
pub open spec fn spec_parse_special_reg(s: Seq<char>) -> Result<u8, Seq<char>> {
    let t = lower_text(trim(s));
    match find_special(t, 0) {
        Some(r) => Ok(spec_encoding(r)),
        None => match parse_unsigned(t, 10, 255) {
            Ok(v) => Ok(v as u8),
            Err(_) => Err("unknown special register '"@ + t + "'"@),
        },
    }
}

/// The characters between double quotes with their escapes replaced.
pub open spec fn unescape(s: Seq<char>) -> Result<Seq<char>, Seq<char>>
    decreases s.len(),
{
    if s.len() == 0 {
        Ok(Seq::empty())
    } else if s[0] == '\\' {
        if s.len() == 1 {
            Err("trailing backslash"@)
        } else {
            let c = s[1];
            let e = if c == 'n' {
                seq!['\n']
            } else if c == 't' {
                seq!['\t']
            } else if c == '\\' {
                seq!['\\']
            } else if c == '"' {
                seq!['"']
            } else if c == '0' {
                seq!['\0']
            } else {
                seq!['\\', c]
            };
            match unescape(s.skip(2)) {
                Ok(r) => Ok(e + r),
                Err(m) => Err(m),
            }
        }
    } else {
        match unescape(s.drop_first()) {
            Ok(r) => Ok(seq![s[0]] + r),
            Err(m) => Err(m),
        }
    }
}

/// A string literal: a `"`, characters with escapes, and the next `"`;
/// whatever follows that quote is ignored.
pub open spec fn spec_parse_string_literal(s: Seq<char>) -> Result<Seq<char>, Seq<char>> {
    if !starts_with(s, "\""@) {
        Err("expected string literal"@)
    } else {
        match find_char(s.drop_first(), '"') {
            None => Err("unterminated string literal"@),
            Some(end) => unescape(s.subrange(1, 1 + end)),
        }
    }
}

/// The symbol table as a map: later entries override earlier ones.
pub open spec fn entries_map(entries: Seq<(Vec<char>, u64)>) -> Map<Seq<char>, u64>
    decreases entries.len(),
{
    if entries.len() == 0 {
        Map::empty()
    } else {
        entries_map(entries.drop_last()).insert(entries.last().0@, entries.last().1)
    }
}

/// Symbols (labels and `IS` constants) with their values.
pub struct SymbolTable {
    entries: Vec<(Vec<char>, u64)>,
}

impl View for SymbolTable {
    type V = Map<Seq<char>, u64>;

    closed spec fn view(&self) -> Map<Seq<char>, u64> {
        entries_map(self.entries@)
    }
}

impl SymbolTable {
    pub fn new() -> (t: Self)
        ensures
            t@ == Map::<Seq<char>, u64>::empty(),
    {
        SymbolTable { entries: Vec::new() }
    }

    pub fn insert(&mut self, name: Vec<char>, value: u64)
        ensures
            final(self)@ == old(self)@.insert(name@, value),
    {
        let ghost old_entries = self.entries@;
        self.entries.push((name, value));
        proof {
            assert(self.entries@.drop_last() =~= old_entries);
        }
    }

    pub fn get(&self, name: &[char]) -> (r: Option<u64>)
        ensures
            match r {
                Some(v) => self@.contains_key(name@) && self@[name@] == v,
                None => !self@.contains_key(name@),
            },
    {
        let mut i = self.entries.len();
        proof {
            assert(self.entries@.take(i as int) =~= self.entries@);
        }
        while i > 0
            invariant
                i <= self.entries@.len(),
                forall|j: int| i <= j < self.entries@.len() ==> (#[trigger] self.entries@[j]).0@ != name@,
                entries_map(self.entries@).contains_key(name@) == entries_map(self.entries@.take(i as int)).contains_key(name@),
                entries_map(self.entries@).contains_key(name@) ==> entries_map(self.entries@)[name@] == entries_map(self.entries@.take(i as int))[name@],
            decreases i,
        {
            let e = &self.entries[i - 1];
            proof {
                assert(self.entries@.take(i as int).drop_last() =~= self.entries@.take(i - 1));
            }
            if chars_eq(e.0.as_slice(), name) {
                return Some(e.1);
            }
            i = i - 1;
        }
        None
    }

    pub fn contains_key(&self, name: &[char]) -> (r: bool)
        ensures
            r == self@.contains_key(name@),
    {
        self.get(name).is_some()
    }
}

// ---------------------------------------------------------------------------
// Executable parsers
// ---------------------------------------------------------------------------

/// The value of a digit character in a base of at most 16.
fn digit_val(c: char, radix: u64) -> (r: Option<u64>)
    requires
        2 <= radix <= 16,
    ensures
        match digit_value(c, radix as nat) {
            Some(d) => r == Some(d as u64),
            None => r is None,
        },
{
    let d: u64 = if '0' <= c && c <= '9' {
        (c as u32 - 48) as u64
    } else if 'a' <= c && c <= 'z' {
        (c as u32 - 87) as u64
    } else if 'A' <= c && c <= 'Z' {
        (c as u32 - 55) as u64
    } else {
        radix
    };
    if d < radix {
        Some(d)
    } else {
        None
    }
}

/// Reads the digits `s[from..]` in base `radix`, rejecting values above `max`.
fn accumulate_digits(s: &[char], from: usize, radix: u64, max: u64, over: IntError) -> (r: Result<u64, IntError>)
    requires
        2 <= radix <= 16,
        from <= s@.len(),
    ensures
        match accumulate(s@.skip(from as int), radix as nat, max as nat, 0, over) {
            Ok(v) => r == Ok::<u64, IntError>(v as u64),
            Err(e) => r == Err::<u64, IntError>(e),
        },
        accumulate(s@.skip(from as int), radix as nat, max as nat, 0, over) matches Ok(v) ==> v <= max,
{
    proof {
        lemma_accumulate_le(s@.skip(from as int), radix as nat, max as nat, 0, over);
    }
    let mut acc: u64 = 0;
    let mut i = from;
    while i < s.len()
        invariant
            from <= i <= s@.len(),
            2 <= radix <= 16,
            acc <= max,
            accumulate(s@.skip(from as int), radix as nat, max as nat, 0, over) == accumulate(
                s@.skip(i as int),
                radix as nat,
                max as nat,
                acc as nat,
                over,
            ),
        decreases s@.len() - i,
    {
        proof {
            assert(s@.skip(i as int).drop_first() =~= s@.skip(i + 1));
            assert(s@.skip(i as int)[0] == s@[i as int]);
        }
        match digit_val(s[i], radix) {
            None => {
                return Err(IntError::InvalidDigit);
            },
            Some(d) => {
                assert((acc as u128) * (radix as u128) <= 0xFFFF_FFFF_FFFF_FFFFu128 * 16) by (nonlinear_arith)
                    requires
                        acc <= 0xFFFF_FFFF_FFFF_FFFFu64,
                        radix <= 16,
                ;
                let next = (acc as u128) * (radix as u128) + (d as u128);
                if next > max as u128 {
                    return Err(over);
                }
                acc = next as u64;
            },
        }
        i = i + 1;
    }
    proof {
        assert(s@.skip(i as int) =~= Seq::<char>::empty());
    }
    Ok(acc)
}

/// An unsigned integer in base `radix` from `s[from..]` (see [`parse_unsigned`]).
pub fn parse_unsigned_at(s: &[char], from: usize, radix: u64, max: u64) -> (r: Result<u64, IntError>)
    requires
        2 <= radix <= 16,
        from <= s@.len(),
    ensures
        match parse_unsigned(s@.skip(from as int), radix as nat, max as nat) {
            Ok(v) => r == Ok::<u64, IntError>(v as u64),
            Err(e) => r == Err::<u64, IntError>(e),
        },
        parse_unsigned(s@.skip(from as int), radix as nat, max as nat) matches Ok(v) ==> v <= max,
{
    let ghost t = s@.skip(from as int);
    if from == s.len() {
        return Err(IntError::Empty);
    }
    assert(t[0] == s@[from as int]);
    if from + 1 == s.len() && (s[from] == '+' || s[from] == '-') {
        return Err(IntError::InvalidDigit);
    }
    if s[from] == '+' {
        assert(t.drop_first() =~= s@.skip(from + 1));
        accumulate_digits(s, from + 1, radix, max, IntError::PosOverflow)
    } else {
        accumulate_digits(s, from, radix, max, IntError::PosOverflow)
    }
}

pub fn starts_with_chars(s: &[char], p: &str) -> (r: bool)
    ensures
        r == starts_with(s@, p@),
{
    let n = p.unicode_len();
    if n > s.len() {
        return false;
    }
    let mut i: usize = 0;
    while i < n
        invariant
            n == p@.len(),
            n <= s@.len(),
            i <= n,
            forall|j: int| 0 <= j < i ==> s@[j] == p@[j],
        decreases n - i,
    {
        if s[i] != p.get_char(i) {
            return false;
        }
        i = i + 1;
    }
    proof {
        assert(s@.take(n as int) =~= p@);
    }
    true
}

fn push_quoted_error(prefix: &str, t: &[char], e: IntError) -> (m: String)
    ensures
        m@ == prefix@ + t@ + "': "@ + int_error_text(e),
{
    let mut m = String::new();
    push_str(&mut m, prefix);
    push_chars(&mut m, t);
    push_str(&mut m, "': ");
    push_int_error(&mut m, e);
    proof {
        assert(m@ =~= prefix@ + t@ + "': "@ + int_error_text(e));
    }
    m
}

/// A number: `0x`/`0X`/`#` hexadecimal, negative decimal, or unsigned decimal.
pub fn parse_number(s: &[char]) -> (r: Result<u64, String>)
    ensures
        match spec_parse_number(s@) {
            Ok(v) => r matches Ok(w) && w == v,
            Err(m) => r matches Err(e) && e@ == m,
        },
{
    let t = trim_chars(s);
    let ts = t.as_slice();
    proof {
        assert(ts@ == trim(s@));
    }
    if starts_with_chars(ts, "0x") || starts_with_chars(ts, "0X") {
        proof {
            reveal_strlit("0x");
            reveal_strlit("0X");
        }
        match parse_unsigned_at(ts, 2, 16, u64::MAX) {
            Ok(v) => Ok(v),
            Err(e) => Err(push_quoted_error("invalid hex '", ts, e)),
        }
    } else if starts_with_chars(ts, "#") {
        proof {
            reveal_strlit("0x");
            reveal_strlit("0X");
            reveal_strlit("#");
        }
        match parse_unsigned_at(ts, 1, 16, u64::MAX) {
            Ok(v) => Ok(v),
            Err(e) => Err(push_quoted_error("invalid hex '", ts, e)),
        }
    } else if starts_with_chars(ts, "-") {
        proof {
            reveal_strlit("0x");
            reveal_strlit("0X");
            reveal_strlit("#");
            reveal_strlit("-");
        }
        let r = if ts.len() == 1 {
            Err(IntError::InvalidDigit)
        } else {
            proof {
                assert(ts@.drop_first() =~= ts@.skip(1));
            }
            accumulate_digits(ts, 1, 10, 0x8000_0000_0000_0000, IntError::NegOverflow)
        };
        match r {
            Ok(m) => Ok(if m == 0 {
                0u64
            } else {
                (0x1_0000_0000_0000_0000u128 - m as u128) as u64
            }),
            Err(e) => Err(push_quoted_error("invalid number '", ts, e)),
        }
    } else {
        proof {
            reveal_strlit("0x");
            reveal_strlit("0X");
            reveal_strlit("#");
            reveal_strlit("-");
            assert(ts@.skip(0) =~= ts@);
        }
        match parse_unsigned_at(ts, 0, 10, u64::MAX) {
            Ok(v) => Ok(v),
            Err(e) => Err(push_quoted_error("invalid number '", ts, e)),
        }
    }
}

/// A register `$n` with `n` in `0..=255`.
pub fn parse_reg(s: &[char]) -> (r: Result<u8, String>)
    ensures
        match spec_parse_reg(s@) {
            Ok(v) => r matches Ok(w) && w == v,
            Err(m) => r matches Err(e) && e@ == m,
        },
{
    let t = trim_chars(s);
    let ts = t.as_slice();
    assert(ts@ == trim(s@));
    if !starts_with_chars(ts, "$") {
        let mut m = String::new();
        push_str(&mut m, "expected register (e.g. $0), got '");
        push_chars(&mut m, ts);
        push_str(&mut m, "'");
        assert(m@ =~= "expected register (e.g. $0), got '"@ + trim(s@) + "'"@);
        return Err(m);
    }
    proof {
        reveal_strlit("$");
    }
    match parse_unsigned_at(ts, 1, 10, 255) {
        Ok(v) => {
            assert(v <= 255);
            Ok(v as u8)
        },
        Err(_) => {
            let mut m = String::new();
            push_str(&mut m, "invalid register '");
            push_chars(&mut m, ts);
            push_str(&mut m, "'");
            assert(m@ =~= "invalid register '"@ + trim(s@) + "'"@);
            Err(m)
        },
    }
}

/// A register, or an immediate of at most 255; `true` marks the immediate.
pub fn parse_reg_or_imm(s: &[char]) -> (r: Result<(u8, bool), String>)
    ensures
        match spec_parse_reg_or_imm(s@) {
            Ok(v) => r matches Ok(w) && w == v,
            Err(m) => r matches Err(e) && e@ == m,
        },
{
    let t = trim_chars(s);
    let ts = t.as_slice();
    assert(ts@ == trim(s@));
    proof {
        lemma_trim_idempotent(s@);
    }
    if starts_with_chars(ts, "$") {
        match parse_reg(ts) {
            Ok(r) => Ok((r, false)),
            Err(e) => Err(e),
        }
    } else {
        match parse_number(ts) {
            Ok(v) => {
                if v > 255 {
                    let mut m = String::new();
                    push_str(&mut m, "immediate ");
                    push_decimal(&mut m, v);
                    push_str(&mut m, " out of range 0..255");
                    assert(m@ =~= "immediate "@ + decimal(v as nat) + " out of range 0..255"@);
                    Err(m)
                } else {
                    Ok((v as u8, true))
                }
            },
            Err(e) => Err(e),
        }
    }
}

/// The value of an operand (see [`spec_resolve`]).
pub fn resolve_label_or_number(s: &[char], labels: &SymbolTable, cur_offset: u64) -> (r: Result<
    u64,
    String,
>)
    ensures
        match spec_resolve(s@, labels@, cur_offset) {
            Ok(v) => r matches Ok(w) && w == v,
            Err(m) => r matches Err(e) && e@ == m,
        },
{
    let t = trim_chars(s);
    let ts = t.as_slice();
    assert(ts@ == trim(s@));
    proof {
        lemma_trim_idempotent(s@);
    }
    if str_eq_chars("@", ts) {
        return Ok(cur_offset);
    }
    let numeric = starts_with_chars(ts, "$") || starts_with_chars(ts, "#") || starts_with_chars(
        ts,
        "0x",
    ) || starts_with_chars(ts, "0X") || starts_with_chars(ts, "-") || (ts.len() > 0 && '0' <= ts[0]
        && ts[0] <= '9');
    if numeric {
        parse_number(ts)
    } else {
        match labels.get(ts) {
            Some(v) => Ok(v),
            None => {
                let mut m = String::new();
                push_str(&mut m, "undefined label '");
                push_chars(&mut m, ts);
                push_str(&mut m, "'");
                assert(m@ =~= "undefined label '"@ + trim(s@) + "'"@);
                Err(m)
            },
        }
    }
}

/// A register, or an immediate of at most 255 that may be a symbol.
pub fn parse_reg_or_imm_with_labels(s: &[char], labels: &SymbolTable, cur_offset: u64) -> (r:
    Result<(u8, bool), String>)
    ensures
        match spec_parse_reg_or_imm_with_labels(s@, labels@, cur_offset) {
            Ok(v) => r matches Ok(w) && w == v,
            Err(m) => r matches Err(e) && e@ == m,
        },
{
    let t = trim_chars(s);
    let ts = t.as_slice();
    assert(ts@ == trim(s@));
    proof {
        lemma_trim_idempotent(s@);
    }
    if starts_with_chars(ts, "$") {
        match parse_reg(ts) {
            Ok(r) => Ok((r, false)),
            Err(e) => Err(e),
        }
    } else {
        match resolve_label_or_number(ts, labels, cur_offset) {
            Ok(v) => {
                if v > 255 {
                    let mut m = String::new();
                    push_str(&mut m, "immediate ");
                    push_decimal(&mut m, v);
                    push_str(&mut m, " out of range 0..255");
                    assert(m@ =~= "immediate "@ + decimal(v as nat) + " out of range 0..255"@);
                    Err(m)
                } else {
                    Ok((v as u8, true))
                }
            },
            Err(e) => Err(e),
        }
    }
}

/// A special register by its name in any letter case, or by its number.
pub fn parse_special_reg(s: &[char]) -> (r: Result<u8, String>)
    ensures
        match spec_parse_special_reg(s@) {
            Ok(v) => r matches Ok(w) && w == v,
            Err(m) => r matches Err(e) && e@ == m,
        },
{
    let t = trim_chars(s);
    let l = to_lower(t.as_slice());
    let ls = l.as_slice();
    let ghost lt = lower_text(trim(s@));
    assert(ls@ == lt);
    let mut i: usize = 0;
    while i < 32
        invariant
            i <= 32,
            ls@ == lt,
            lt == lower_text(trim(s@)),
            find_special(lt, 0) == find_special(lt, i as int),
        decreases 32 - i,
    {
        let reg = reg_at(i);
        if str_eq_chars(reg.name(), ls) {
            assert(find_special(lt, i as int) == Some(reg));
            return Ok(reg.encoding());
        }
        i = i + 1;
    }
    assert(ls@.skip(0) =~= ls@);
    match parse_unsigned_at(ls, 0, 10, 255) {
        Ok(v) => Ok(v as u8),
        Err(_) => {
            let mut m = String::new();
            push_str(&mut m, "unknown special register '");
            push_chars(&mut m, ls);
            push_str(&mut m, "'");
            assert(m@ =~= "unknown special register '"@ + lt + "'"@);
            Err(m)
        },
    }
}

/// The characters of `s` with their escapes replaced.
fn unescape_chars(s: &[char]) -> (r: Result<Vec<char>, String>)
    ensures
        match unescape(s@) {
            Ok(v) => r matches Ok(w) && w@ == v,
            Err(m) => r matches Err(e) && e@ == m,
        },
{
    let mut out: Vec<char> = Vec::new();
    let mut i: usize = 0;
    proof {
        assert(s@.skip(0) =~= s@);
        match unescape(s@) {
            Ok(r0) => assert(out@ + r0 =~= r0),
            Err(_) => {},
        }
    }
    while i < s.len()
        invariant
            i <= s@.len(),
            unescape(s@) == match unescape(s@.skip(i as int)) {
                Ok(rest) => Ok(out@ + rest),
                Err(m) => Err(m),
            },
        decreases s@.len() - i,
    {
        let ghost rest = s@.skip(i as int);
        assert(rest[0] == s@[i as int]);
        if s[i] == '\\' {
            if i + 1 == s.len() {
                let mut m = String::new();
                push_str(&mut m, "trailing backslash");
                assert(m@ =~= "trailing backslash"@);
                return Err(m);
            }
            let c = s[i + 1];
            assert(rest[1] == c);
            assert(rest.skip(2) =~= s@.skip(i + 2));
            let ghost before = out@;
            if c == 'n' {
                out.push('\n');
            } else if c == 't' {
                out.push('\t');
            } else if c == '\\' {
                out.push('\\');
            } else if c == '"' {
                out.push('"');
            } else if c == '0' {
                out.push('\0');
            } else {
                out.push('\\');
                out.push(c);
            }
            proof {
                let e = if c == 'n' {
                    seq!['\n']
                } else if c == 't' {
                    seq!['\t']
                } else if c == '\\' {
                    seq!['\\']
                } else if c == '"' {
                    seq!['"']
                } else if c == '0' {
                    seq!['\0']
                } else {
                    seq!['\\', c]
                };
                assert(out@ =~= before + e);
                match unescape(s@.skip(i + 2)) {
                    Ok(r2) => assert(out@ + r2 =~= before + (e + r2)),
                    Err(_) => {},
                }
            }
            i = i + 2;
        } else {
            let ghost before = out@;
            out.push(s[i]);
            proof {
                assert(rest.drop_first() =~= s@.skip(i + 1));
                match unescape(s@.skip(i + 1)) {
                    Ok(r2) => assert(out@ + r2 =~= before + (seq![s@[i as int]] + r2)),
                    Err(_) => {},
                }
            }
            i = i + 1;
        }
    }
    assert(s@.skip(i as int) =~= Seq::<char>::empty());
    assert(out@ + Seq::<char>::empty() =~= out@);
    Ok(out)
}

/// A string literal: a `"`, characters with escapes, and the next `"`.
pub fn parse_string_literal(s: &[char]) -> (r: Result<Vec<char>, String>)
    ensures
        match spec_parse_string_literal(s@) {
            Ok(v) => r matches Ok(w) && w@ == v,
            Err(m) => r matches Err(e) && e@ == m,
        },
{
    if !starts_with_chars(s, "\"") {
        let mut m = String::new();
        push_str(&mut m, "expected string literal");
        assert(m@ =~= "expected string literal"@);
        return Err(m);
    }
    proof {
        reveal_strlit("\"");
    }
    let body = slice_chars(s, 1, s.len());
    assert(body@ =~= s@.drop_first());
    match find(body.as_slice(), '"') {
        None => {
            let mut m = String::new();
            push_str(&mut m, "unterminated string literal");
            assert(m@ =~= "unterminated string literal"@);
            Err(m)
        },
        Some(end) => {
            let inner = slice_chars(s, 1, 1 + end);
            assert(find_char(s@.drop_first(), '"') == Some(end as int));
            let r = unescape_chars(inner.as_slice());
            assert(inner@ == s@.subrange(1, 1 + end));
            r
        },
    }
}

/// How a character is written inside a string literal: backslash, double
/// quote, newline, tab and NUL with a backslash escape, others as they are.
pub open spec fn escape_char(c: char) -> Seq<char> {
    if c == '\\' {
        seq!['\\', '\\']
    } else if c == '"' {
        seq!['\\', '"']
    } else if c == '\n' {
        seq!['\\', 'n']
    } else if c == '\t' {
        seq!['\\', 't']
    } else if c == '\0' {
        seq!['\\', '0']
    } else {
        seq![c]
    }
}

/// A text as written inside a string literal.
pub open spec fn escape(t: Seq<char>) -> Seq<char>
    decreases t.len(),
{
    if t.len() == 0 {
        Seq::empty()
    } else {
        escape_char(t[0]) + escape(t.drop_first())
    }
}

/// Reading back an escaped text gives the text: each escape stands for
/// exactly the one character it was written for.
pub proof fn lemma_unescape_escape(t: Seq<char>)
    ensures
        unescape(escape(t)) == Ok::<Seq<char>, Seq<char>>(t),
    decreases t.len(),
{
    if t.len() == 0 {
        assert(t =~= Seq::<char>::empty());
    } else {
        let c = t[0];
        let rest = escape(t.drop_first());
        let e = escape_char(c);
        let s = e + rest;
        assert(escape(t) == s);
        lemma_unescape_escape(t.drop_first());
        if e.len() == 2 {
            assert(s.skip(2) =~= rest);
            assert(s[0] == '\\');
        } else {
            assert(s.drop_first() =~= rest);
            assert(s[0] == c);
        }
        assert(t =~= seq![c] + t.drop_first());
    }
}

/// A text without double quotes, escaped and put between double quotes,
/// reads back from the literal as itself.
pub proof fn lemma_literal_roundtrip(t: Seq<char>)
    requires
        forall|i: int| 0 <= i < t.len() ==> t[i] != '"',
    ensures
        spec_parse_string_literal(seq!['"'] + escape(t) + seq!['"']) == Ok::<Seq<char>, Seq<char>>(t),
{
    let u = escape(t);
    lemma_escape_no_quote(t);
    lemma_unescape_escape(t);
    let s = seq!['"'] + u + seq!['"'];
    reveal_strlit("\"");
    assert("\""@ == seq!['"']);
    assert(s.take(1) =~= seq!['"']);
    assert(starts_with(s, "\""@));
    assert(s.drop_first() =~= u + seq!['"']);
    lemma_find_char_end(u, '"');
    assert(s.subrange(1, 1 + u.len() as int) =~= u);
}

proof fn lemma_escape_no_quote(t: Seq<char>)
    requires
        forall|i: int| 0 <= i < t.len() ==> t[i] != '"',
    ensures
        forall|i: int| 0 <= i < escape(t).len() ==> escape(t)[i] != '"',
    decreases t.len(),
{
    if t.len() > 0 {
        lemma_escape_no_quote(t.drop_first());
        let e = escape_char(t[0]);
        let r = escape(t.drop_first());
        assert forall|i: int| 0 <= i < escape(t).len() implies escape(t)[i] != '"' by {
            if i < e.len() {
                assert(escape(t)[i] == e[i]);
            } else {
                assert(escape(t)[i] == r[i - e.len()]);
            }
        }
    }
}

proof fn lemma_find_char_end(u: Seq<char>, c: char)
    requires
        forall|i: int| 0 <= i < u.len() ==> u[i] != c,
    ensures
        find_char(u + seq![c], c) == Some(u.len() as int),
    decreases u.len(),
{
    if u.len() > 0 {
        lemma_find_char_end(u.drop_first(), c);
        assert((u + seq![c]).drop_first() =~= u.drop_first() + seq![c]);
    }
}

/// Trimming twice is trimming once.
pub proof fn lemma_trim_idempotent(s: Seq<char>)
    ensures
        trim(trim(s)) == trim(s),
{
    lemma_trim_start_fixed(s);
    lemma_trim_start_end(trim_start(s));
    lemma_trim_end_fixed(trim_start(s));
}

proof fn lemma_trim_start_fixed(s: Seq<char>)
    ensures
        trim_start(trim_start(s)) == trim_start(s),
        trim_start(s).len() > 0 ==> !is_ws(trim_start(s)[0]),
    decreases s.len(),
{
    if s.len() > 0 && is_ws(s[0]) {
        lemma_trim_start_fixed(s.drop_first());
    }
}

proof fn lemma_trim_end_fixed(s: Seq<char>)
    ensures
        trim_end(trim_end(s)) == trim_end(s),
        trim_end(s).len() > 0 ==> !is_ws(trim_end(s).last()),
    decreases s.len(),
{
    if s.len() > 0 && is_ws(s.last()) {
        lemma_trim_end_fixed(s.drop_last());
    }
}

/// Trimming the end of a text that starts with no whitespace leaves its start alone.
proof fn lemma_trim_start_end(s: Seq<char>)
    requires
        s.len() > 0 ==> !is_ws(s[0]),
    ensures
        trim_start(trim_end(s)) == trim_end(s),
    decreases s.len(),
{
    if s.len() > 0 && is_ws(s.last()) {
        if s.len() > 1 {
            lemma_trim_start_end(s.drop_last());
        } else {
            assert(s.drop_last().len() == 0);
        }
    }
}

} // verus!
