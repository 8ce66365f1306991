//! The `.mmb` program image: a header, the code, and a debug section with
//! the line map, the source file name and the source lines.
//!
//! Layout, every number big-endian:
//! `"MMIXBIN\0"`, entry address (8 bytes), code length (8), the code,
//! `"MMIXDBG\0"`, entry count (4), per entry its line (4) and address (8),
//! name length (4), the name, line count (4), per line its length (4) and
//! its bytes.

use crate::memory::{be_bytes, be_value, lemma_be_roundtrip, lemma_pow256_values, push_be, read_be_at};
use crate::text::{chars_of, lemma_utf8_injective, lines, push_utf8, text_lines, utf8};
use std::collections::HashMap;
use vstd::prelude::*;

verus! {

broadcast use vstd::std_specs::hash::group_hash_axioms;

/// `"MMIXBIN\0"`.
pub open spec fn magic_bin() -> Seq<u8> {
    seq![0x4Du8, 0x4D, 0x49, 0x58, 0x42, 0x49, 0x4E, 0x00]
}

/// `"MMIXDBG\0"`.
pub open spec fn magic_dbg() -> Seq<u8> {
    seq![0x4Du8, 0x4D, 0x49, 0x58, 0x44, 0x42, 0x47, 0x00]
}

/// The bytes of the line map entries.
pub open spec fn entries_bytes(es: Seq<(usize, u64)>) -> Seq<u8>
    decreases es.len(),
{
    if es.len() == 0 {
        Seq::empty()
    } else {
        entries_bytes(es.drop_last()) + be_bytes(es.last().0 as nat, 4) + be_bytes(
            es.last().1 as nat,
            8,
        )
    }
}

/// The bytes of the source lines, each with its length first.
pub open spec fn lines_bytes(ls: Seq<Seq<char>>) -> Seq<u8>
    decreases ls.len(),
{
    if ls.len() == 0 {
        Seq::empty()
    } else {
        lines_bytes(ls.drop_last()) + be_bytes(utf8(ls.last()).len(), 4) + utf8(ls.last())
    }
}

/// The image of a program: entry address, code, line map entries (in the
/// order given), source file name and source lines.
pub open spec fn mmb_image(
    entry: u64,
    code: Seq<u8>,
    entries: Seq<(usize, u64)>,
    name: Seq<char>,
    source_lines: Seq<Seq<char>>,
) -> Seq<u8> {
    magic_bin() + be_bytes(entry as nat, 8) + be_bytes(code.len(), 8) + code + magic_dbg()
        + be_bytes(entries.len(), 4) + entries_bytes(entries) + be_bytes(utf8(name).len(), 4)
        + utf8(name) + be_bytes(source_lines.len(), 4) + lines_bytes(source_lines)
}

fn push_bytes(out: &mut Vec<u8>, b: &[u8])
    ensures
        final(out)@ == old(out)@ + b@,
{
    let mut i: usize = 0;
    while i < b.len()
        invariant
            i <= b@.len(),
            out@ == old(out)@ + b@.take(i as int),
        decreases b@.len() - i,
    {
        out.push(b[i]);
        i = i + 1;
        assert(out@ =~= old(out)@ + b@.take(i as int));
    }
    assert(b@.take(i as int) =~= b@);
}

fn push_magic(out: &mut Vec<u8>, debug: bool)
    ensures
        final(out)@ == old(out)@ + if debug {
            magic_dbg()
        } else {
            magic_bin()
        },
{
    out.push(0x4D);
    out.push(0x4D);
    out.push(0x49);
    out.push(0x58);
    if debug {
        out.push(0x44);
        out.push(0x42);
        out.push(0x47);
    } else {
        out.push(0x42);
        out.push(0x49);
        out.push(0x4E);
    }
    out.push(0x00);
    assert(out@ =~= old(out)@ + if debug {
        magic_dbg()
    } else {
        magic_bin()
    });
}

/// The image of a program (see [`mmb_image`]); the source lines are those
/// of `source`.
pub fn encode_mmb(
    entry_addr: u64,
    code: &[u8],
    entries: &[(usize, u64)],
    source: &str,
    source_file: &str,
) -> (out: Vec<u8>)
    ensures
        out@ == mmb_image(entry_addr, code@, entries@, source_file@, text_lines(source@)),
{
    let mut out: Vec<u8> = Vec::new();
    push_magic(&mut out, false);
    push_be(&mut out, entry_addr, 8);
    push_be(&mut out, code.len() as u64, 8);
    push_bytes(&mut out, code);
    push_magic(&mut out, true);
    push_be(&mut out, entries.len() as u64, 4);
    let ghost head = out@;
    let mut i: usize = 0;
    while i < entries.len()
        invariant
            i <= entries@.len(),
            out@ == head + entries_bytes(entries@.take(i as int)),
        decreases entries@.len() - i,
    {
        let (line, offset) = entries[i];
        push_be(&mut out, line as u64, 4);
        push_be(&mut out, offset, 8);
        proof {
            assert(entries@.take(i + 1).drop_last() =~= entries@.take(i as int));
        }
        i = i + 1;
        assert(out@ =~= head + entries_bytes(entries@.take(i as int)));
    }
    assert(entries@.take(i as int) =~= entries@);
    let name = chars_of(source_file);
    let mut name_bytes: Vec<u8> = Vec::new();
    push_utf8(&mut name_bytes, name.as_slice());
    push_be(&mut out, name_bytes.len() as u64, 4);
    push_bytes(&mut out, name_bytes.as_slice());
    let text = chars_of(source);
    let ls = lines(text.as_slice());
    let ghost sl = text_lines(source@);
    push_be(&mut out, ls.len() as u64, 4);
    let ghost head2 = out@;
    let mut j: usize = 0;
    while j < ls.len()
        invariant
            j <= ls@.len(),
            ls@.len() == sl.len(),
            forall|k: int| 0 <= k < ls@.len() ==> (#[trigger] ls@[k])@ == sl[k],
            out@ == head2 + lines_bytes(sl.take(j as int)),
        decreases ls@.len() - j,
    {
        let mut lb: Vec<u8> = Vec::new();
        push_utf8(&mut lb, ls[j].as_slice());
        push_be(&mut out, lb.len() as u64, 4);
        push_bytes(&mut out, lb.as_slice());
        proof {
            assert(sl.take(j + 1).drop_last() =~= sl.take(j as int));
            assert(sl.take(j + 1).last() == sl[j as int]);
        }
        j = j + 1;
        assert(out@ =~= head2 + lines_bytes(sl.take(j as int)));
    }
    assert(sl.take(j as int) =~= sl);
    assert(out@ =~= mmb_image(entry_addr, code@, entries@, source_file@, text_lines(source@)));
    out
}

// ---------------------------------------------------------------------------
// Reading an image
// ---------------------------------------------------------------------------

/// What `Display` writes for the error of `String::from_utf8` on some bytes.
pub uninterp spec fn from_utf8_error(b: Seq<u8>) -> Seq<char>;

/// Whether some bytes are the UTF-8 encoding of a text.
pub open spec fn is_utf8(b: Seq<u8>) -> bool {
    exists|s: Seq<char>| utf8(s) == b
}

/// Reading bytes as UTF-8: the text they encode, or the error.
pub open spec fn decode_utf8(b: Seq<u8>) -> Result<Seq<char>, Seq<char>> {
    if is_utf8(b) {
        Ok(choose|s: Seq<char>| utf8(s) == b)
    } else {
        Err(from_utf8_error(b))
    }
}

/// Encoded text reads back as itself.
pub proof fn lemma_decode_utf8(s: Seq<char>)
    ensures
        decode_utf8(utf8(s)) == Ok::<Seq<char>, Seq<char>>(s),
{
    let b = utf8(s);
    assert(is_utf8(b));
    let t = choose|t: Seq<char>| utf8(t) == b;
    lemma_utf8_injective(t, s);
}

/// `String::from_utf8`. Its documentation promises: the bytes are accepted
/// exactly when they are valid UTF-8 (the encoding of some text), and the
/// string then holds exactly those bytes. What `Display` writes for the
/// error is left unsaid.
#[verifier::external_body]
fn string_from_utf8(b: Vec<u8>) -> (r: Result<String, String>)
    ensures
        r is Ok <==> is_utf8(b@),
        r matches Ok(t) ==> utf8(t@) == b@,
        r matches Err(e) ==> e@ == from_utf8_error(b@),
{
    match String::from_utf8(b) {
        Ok(s) => Ok(s),
        Err(e) => Err(format!("{}", e)),
    }
}

/// The debug section, as read.
pub struct MmbDebug {
    pub line_to_offset: Map<usize, u64>,
    pub offset_to_line: Map<u64, usize>,
    pub source_file: Seq<char>,
    pub source_lines: Seq<Seq<char>>,
}

/// The number in `d[pos..pos + n]`, if those bytes are there.
pub open spec fn field(d: Seq<u8>, pos: int, n: int) -> Option<nat> {
    if 0 <= pos && pos + n <= d.len() {
        Some(be_value(d.subrange(pos, pos + n)))
    } else {
        None
    }
}

/// The text of a debug section that ends early.
pub open spec fn debug_end_msg() -> Seq<char> {
    "unexpected end of debug section"@
}

/// `k` line map entries from `pos` on, and where they end.
pub open spec fn read_entries(d: Seq<u8>, pos: int, k: nat) -> Option<(Seq<(nat, nat)>, int)>
    decreases k,
{
    if k == 0 {
        Some((Seq::empty(), pos))
    } else {
        match read_entries(d, pos, (k - 1) as nat) {
            None => None,
            Some((es, p)) => if 0 <= p && p + 12 <= d.len() {
                Some(
                    (
                        es.push(
                            (
                                be_value(d.subrange(p, p + 4)),
                                be_value(d.subrange(p + 4, p + 12)),
                            ),
                        ),
                        p + 12,
                    ),
                )
            } else {
                None
            },
        }
    }
}

/// The two maps of line map entries; a later entry wins.
pub open spec fn entry_maps(es: Seq<(nat, nat)>) -> (Map<usize, u64>, Map<u64, usize>)
    decreases es.len(),
{
    if es.len() == 0 {
        (Map::empty(), Map::empty())
    } else {
        let (a, b) = entry_maps(es.drop_last());
        let (l, o) = es.last();
        (a.insert(l as usize, o as u64), b.insert(o as u64, l as usize))
    }
}

/// `k` source lines from `pos` on, and where they end.
pub open spec fn read_lines(d: Seq<u8>, pos: int, k: nat) -> Result<(Seq<Seq<char>>, int), Seq<char>>
    decreases k,
{
    if k == 0 {
        Ok((Seq::empty(), pos))
    } else {
        match read_lines(d, pos, (k - 1) as nat) {
            Err(e) => Err(e),
            Ok((ls, p)) => match field(d, p, 4) {
                None => Err(debug_end_msg()),
                Some(len) => if p + 4 + len > d.len() {
                    Err(debug_end_msg())
                } else {
                    match decode_utf8(d.subrange(p + 4, p + 4 + len)) {
                        Err(t) => Err("invalid UTF-8 in source line: "@ + t),
                        Ok(line) => Ok((ls.push(line), p + 4 + len)),
                    }
                },
            },
        }
    }
}

/// The debug section from `pos` on.
pub open spec fn parse_debug(d: Seq<u8>, pos: int) -> Result<MmbDebug, Seq<char>> {
    match field(d, pos, 4) {
        None => Err(debug_end_msg()),
        Some(n) => match read_entries(d, pos + 4, n) {
            None => Err(debug_end_msg()),
            Some((es, p)) => match field(d, p, 4) {
                None => Err(debug_end_msg()),
                Some(nl) => if p + 4 + nl > d.len() {
                    Err(debug_end_msg())
                } else {
                    match decode_utf8(d.subrange(p + 4, p + 4 + nl)) {
                        Err(t) => Err("invalid UTF-8 in source file name: "@ + t),
                        Ok(name) => match field(d, p + 4 + nl, 4) {
                            None => Err(debug_end_msg()),
                            Some(m) => match read_lines(d, p + 8 + nl, m) {
                                Err(e) => Err(e),
                                Ok((ls, _)) => Ok(
                                    MmbDebug {
                                        line_to_offset: entry_maps(es).0,
                                        offset_to_line: entry_maps(es).1,
                                        source_file: name,
                                        source_lines: ls,
                                    },
                                ),
                            },
                        },
                    }
                },
            },
        },
    }
}

/// Reading an image: the entry address, the code, and the debug section if
/// the code is followed by one; or why the bytes are no image.
pub open spec fn parse_mmb(d: Seq<u8>) -> Result<(u64, Seq<u8>, Option<MmbDebug>), Seq<char>> {
    if d.len() < 24 {
        Err("file too short for header"@)
    } else if d.take(8) != magic_bin() {
        Err("invalid magic: not a .mmb file"@)
    } else {
        let entry = be_value(d.subrange(8, 16)) as u64;
        let cl = be_value(d.subrange(16, 24));
        if 24 + cl > d.len() {
            Err("file truncated: code section incomplete"@)
        } else {
            let p: int = 24 + cl as int;
            let code = d.subrange(24, p);
            if d.len() < p + 8 || d.subrange(p, p + 8) != magic_dbg() {
                Ok((entry, code, None))
            } else {
                match parse_debug(d, p + 8) {
                    Err(e) => Err(e),
                    Ok(dbg) => Ok((entry, code, Some(dbg))),
                }
            }
        }
    }
}

/// Debug information: the line map both ways, the source file name and the
/// source lines.
#[derive(Debug)]
pub struct DebugInfo {
    /// Source line index -> address.
    pub line_to_offset: HashMap<usize, u64>,
    /// Address -> source line index.
    pub offset_to_line: HashMap<u64, usize>,
    pub source_file: String,
    pub source_lines: Vec<String>,
}

/// The debug information as read.
pub open spec fn debug_view(x: &DebugInfo) -> MmbDebug {
    MmbDebug {
        line_to_offset: x.line_to_offset@,
        offset_to_line: x.offset_to_line@,
        source_file: x.source_file@,
        source_lines: x.source_lines@.map_values(|l: String| l@),
    }
}

/// Why some bytes are no program image.
#[derive(Debug)]
pub struct MmbError {
    pub message: String,
}

/// Reads bytes as UTF-8 (see [`decode_utf8`]).
fn read_utf8(b: Vec<u8>) -> (r: Result<String, String>)
    ensures
        match decode_utf8(b@) {
            Ok(s) => r matches Ok(t) && t@ == s,
            Err(m) => r matches Err(e) && e@ == m,
        },
{
    let r = string_from_utf8(b);
    proof {
        if r is Ok {
            lemma_decode_utf8(r->Ok_0@);
        }
    }
    r
}

fn mmb_error(m: &str) -> (e: MmbError)
    ensures
        e.message@ == m@,
{
    let mut s = String::new();
    crate::text::push_str(&mut s, m);
    assert(s@ =~= m@);
    MmbError { message: s }
}

fn copy_range(d: &[u8], from: usize, to: usize) -> (r: Vec<u8>)
    requires
        from <= to <= d@.len(),
    ensures
        r@ == d@.subrange(from as int, to as int),
{
    let mut r: Vec<u8> = Vec::new();
    let mut i = from;
    while i < to
        invariant
            from <= i <= to <= d@.len(),
            r@ == d@.subrange(from as int, i as int),
        decreases to - i,
    {
        r.push(d[i]);
        i = i + 1;
        assert(r@ =~= d@.subrange(from as int, i as int));
    }
    r
}

/// Whether `d[pos..pos + 8]` is a magic word.
fn magic_at(d: &[u8], pos: usize, debug: bool) -> (r: bool)
    requires
        pos + 8 <= d@.len(),
    ensures
        r == (d@.subrange(pos as int, pos + 8) == if debug {
            magic_dbg()
        } else {
            magic_bin()
        }),
{
    let m = if debug {
        [0x4Du8, 0x4D, 0x49, 0x58, 0x44, 0x42, 0x47, 0x00]
    } else {
        [0x4Du8, 0x4D, 0x49, 0x58, 0x42, 0x49, 0x4E, 0x00]
    };
    let ghost want = if debug {
        magic_dbg()
    } else {
        magic_bin()
    };
    assert(m@ =~= want);
    let len = d.len();
    let mut i: usize = 0;
    while i < 8
        invariant
            i <= 8,
            len == d@.len(),
            pos + 8 <= d@.len(),
            m@ == want,
            want == if debug {
                magic_dbg()
            } else {
                magic_bin()
            },
            forall|j: int| 0 <= j < i ==> d@[pos + j] == want[j],
        decreases 8 - i,
    {
        if d[pos + i] != m[i] {
            assert(d@.subrange(pos as int, pos + 8)[i as int] != want[i as int]);
            return false;
        }
        i = i + 1;
    }
    assert(d@.subrange(pos as int, pos + 8) =~= want);
    true
}

/// Once the entries run out of bytes, more entries do too.
proof fn lemma_read_entries_none(d: Seq<u8>, pos: int, k: nat, k2: nat)
    requires
        k <= k2,
        read_entries(d, pos, k) is None,
    ensures
        read_entries(d, pos, k2) is None,
    decreases k2,
{
    if k < k2 {
        lemma_read_entries_none(d, pos, k, (k2 - 1) as nat);
    }
}

/// Once reading the lines fails, reading more lines fails the same way.
proof fn lemma_read_lines_err(d: Seq<u8>, pos: int, k: nat, k2: nat)
    requires
        k <= k2,
        read_lines(d, pos, k) is Err,
    ensures
        read_lines(d, pos, k2) == read_lines(d, pos, k),
    decreases k2,
{
    if k < k2 {
        lemma_read_lines_err(d, pos, k, (k2 - 1) as nat);
    }
}

/// The message `prefix` followed by the text `t`.
fn message2(prefix: &str, t: &String) -> (m: String)
    ensures
        m@ == prefix@ + t@,
{
    let mut m = String::new();
    crate::text::push_str(&mut m, prefix);
    crate::text::push_str(&mut m, t.as_str());
    assert(m@ =~= prefix@ + t@);
    m
}

/// The debug section from `pos` on (see [`parse_debug`]).
fn parse_debug_exec(d: &[u8], pos: usize) -> (r: Result<DebugInfo, MmbError>)
    requires
        pos <= d@.len(),
    ensures
        match parse_debug(d@, pos as int) {
            Ok(x) => r matches Ok(y) && debug_view(&y) == x,
            Err(m) => r matches Err(e) && e.message@ == m,
        },
{
    let len = d.len();
    if len - pos < 4 {
        return Err(mmb_error("unexpected end of debug section"));
    }
    let n = read_be_at(d, pos, 4);
    let mut p = pos + 4;
    let mut line_to_offset: HashMap<usize, u64> = HashMap::new();
    let mut offset_to_line: HashMap<u64, usize> = HashMap::new();
    let ghost mut es: Seq<(nat, nat)> = Seq::empty();
    let mut k: u64 = 0;
    while k < n
        invariant
            k <= n,
            len == d@.len(),
            p <= d@.len(),
            pos + 4 <= d@.len(),
            n == be_value(d@.subrange(pos as int, pos + 4)),
            read_entries(d@, pos + 4, k as nat) == Some((es, p as int)),
            line_to_offset@ == entry_maps(es).0,
            offset_to_line@ == entry_maps(es).1,
        decreases n - k,
    {
        if len - p < 12 {
            proof {
                lemma_read_entries_none(d@, pos + 4, (k + 1) as nat, n as nat);
            }
            return Err(mmb_error("unexpected end of debug section"));
        }
        let l = read_be_at(d, p, 4);
        let o = read_be_at(d, p + 4, 8);
        proof {
            lemma_be_value_bound_4(d@.subrange(p as int, p + 4));
        }
        line_to_offset.insert(l as usize, o);
        offset_to_line.insert(o, l as usize);
        proof {
            let old_es = es;
            es = es.push((l as nat, o as nat));
            assert(es.drop_last() =~= old_es);
        }
        p = p + 12;
        k = k + 1;
    }
    if len - p < 4 {
        return Err(mmb_error("unexpected end of debug section"));
    }
    let nl = read_be_at(d, p, 4);
    if ((len - p - 4) as u64) < nl {
        return Err(mmb_error("unexpected end of debug section"));
    }
    let name_end = p + 4 + nl as usize;
    let name_bytes = copy_range(d, p + 4, name_end);
    let source_file = match read_utf8(name_bytes) {
        Err(t) => {
            return Err(MmbError { message: message2("invalid UTF-8 in source file name: ", &t) });
        },
        Ok(s) => s,
    };
    if len - name_end < 4 {
        return Err(mmb_error("unexpected end of debug section"));
    }
    let m = read_be_at(d, name_end, 4);
    let lines_start = name_end + 4;
    let mut q = lines_start;
    let mut source_lines: Vec<String> = Vec::new();
    assert(source_lines@.map_values(|l: String| l@) =~= Seq::<Seq<char>>::empty());
    let mut j: u64 = 0;
    while j < m
        invariant
            j <= m,
            len == d@.len(),
            q <= d@.len(),
            read_lines(d@, lines_start as int, j as nat) == Ok::<(Seq<Seq<char>>, int), Seq<char>>(
                (source_lines@.map_values(|l: String| l@), q as int),
            ),
            parse_debug(d@, pos as int) == match read_lines(d@, lines_start as int, m as nat) {
                Err(e) => Err(e),
                Ok((ls, _)) => Ok(
                    MmbDebug {
                        line_to_offset: line_to_offset@,
                        offset_to_line: offset_to_line@,
                        source_file: source_file@,
                        source_lines: ls,
                    },
                ),
            },
        decreases m - j,
    {
        if len - q < 4 {
            proof {
                lemma_read_lines_err(d@, lines_start as int, (j + 1) as nat, m as nat);
            }
            return Err(mmb_error("unexpected end of debug section"));
        }
        let ll = read_be_at(d, q, 4);
        if ((len - q - 4) as u64) < ll {
            proof {
                lemma_read_lines_err(d@, lines_start as int, (j + 1) as nat, m as nat);
            }
            return Err(mmb_error("unexpected end of debug section"));
        }
        let end = q + 4 + ll as usize;
        let bytes = copy_range(d, q + 4, end);
        match read_utf8(bytes) {
            Err(t) => {
                proof {
                    lemma_read_lines_err(d@, lines_start as int, (j + 1) as nat, m as nat);
                }
                return Err(MmbError { message: message2("invalid UTF-8 in source line: ", &t) });
            },
            Ok(s) => {
                let ghost before = source_lines@;
                source_lines.push(s);
                assert(source_lines@.map_values(|l: String| l@) =~= before.map_values(
                    |l: String| l@,
                ).push(s@));
            },
        }
        q = end;
        j = j + 1;
    }
    Ok(DebugInfo { line_to_offset, offset_to_line, source_file, source_lines })
}

/// The number in 4 bytes is below 2^32.
proof fn lemma_be_value_bound_4(s: Seq<u8>)
    requires
        s.len() == 4,
    ensures
        be_value(s) < 0x1_0000_0000,
{
    crate::memory::lemma_be_value_bound(s);
    lemma_pow256_values();
}

/// Reads a program image (see [`parse_mmb`]).
pub fn decode_mmb(data: &[u8]) -> (r: Result<(u64, Vec<u8>, Option<DebugInfo>), MmbError>)
    ensures
        match parse_mmb(data@) {
            Ok((entry, code, dbg)) => r matches Ok(t) && t.0 == entry && t.1@ == code && match dbg {
                None => t.2 is None,
                Some(x) => t.2 matches Some(y) && debug_view(&y) == x,
            },
            Err(m) => r matches Err(e) && e.message@ == m,
        },
{
    let len = data.len();
    if len < 24 {
        return Err(mmb_error("file too short for header"));
    }
    if !magic_at(data, 0, false) {
        assert(data@.take(8) =~= data@.subrange(0, 8));
        return Err(mmb_error("invalid magic: not a .mmb file"));
    }
    assert(data@.take(8) =~= data@.subrange(0, 8));
    let entry = read_be_at(data, 8, 8);
    let code_len = read_be_at(data, 16, 8);
    if ((len - 24) as u64) < code_len {
        return Err(mmb_error("file truncated: code section incomplete"));
    }
    let p = 24 + code_len as usize;
    let code = copy_range(data, 24, p);
    if len - p < 8 || !magic_at(data, p, true) {
        return Ok((entry, code, None));
    }
    match parse_debug_exec(data, p + 8) {
        Err(e) => Err(e),
        Ok(dbg) => Ok((entry, code, Some(dbg))),
    }
}

/// The entries of a line map whose lines are below `n`, by line.
pub open spec fn entries_below(map: Map<usize, u64>, n: nat) -> Seq<(usize, u64)>
    decreases n,
{
    if n == 0 {
        Seq::empty()
    } else {
        let rest = entries_below(map, (n - 1) as nat);
        let l = (n - 1) as usize;
        if map.contains_key(l) {
            rest.push((l, map[l]))
        } else {
            rest
        }
    }
}

/// The entries of a line map whose lines are below `n`, by line.
pub fn line_entries(map: &HashMap<usize, u64>, n: usize) -> (v: Vec<(usize, u64)>)
    ensures
        v@ == entries_below(map@, n as nat),
{
    let mut v: Vec<(usize, u64)> = Vec::new();
    let mut l: usize = 0;
    while l < n
        invariant
            l <= n,
            v@ == entries_below(map@, l as nat),
        decreases n - l,
    {
        match map.get(&l) {
            Some(o) => v.push((l, *o)),
            None => {},
        }
        l = l + 1;
    }
    v
}

// ---------------------------------------------------------------------------
// Reading back what was written
// ---------------------------------------------------------------------------

/// Line map entries as the reader sees them.
pub open spec fn nat_entries(es: Seq<(usize, u64)>) -> Seq<(nat, nat)> {
    es.map_values(|e: (usize, u64)| (e.0 as nat, e.1 as nat))
}

/// What reading the written source lines gives: each line's bytes through
/// `String::from_utf8`, or the first failure.
pub open spec fn decoded_lines(ls: Seq<Seq<char>>) -> Result<Seq<Seq<char>>, Seq<char>>
    decreases ls.len(),
{
    if ls.len() == 0 {
        Ok(Seq::empty())
    } else {
        match decoded_lines(ls.drop_last()) {
            Err(e) => Err(e),
            Ok(r) => match decode_utf8(utf8(ls.last())) {
                Err(t) => Err("invalid UTF-8 in source line: "@ + t),
                Ok(x) => Ok(r.push(x)),
            },
        }
    }
}

/// Written source lines read back as themselves.
proof fn lemma_decoded_lines(ls: Seq<Seq<char>>)
    ensures
        decoded_lines(ls) == Ok::<Seq<Seq<char>>, Seq<char>>(ls),
    decreases ls.len(),
{
    if ls.len() > 0 {
        lemma_decoded_lines(ls.drop_last());
        lemma_decode_utf8(ls.last());
        assert(ls.drop_last().push(ls.last()) =~= ls);
    } else {
        assert(ls =~= Seq::<Seq<char>>::empty());
    }
}

/// `y` sits in `x + y + z` right after `x`.
proof fn lemma_middle(x: Seq<u8>, y: Seq<u8>, z: Seq<u8>)
    ensures
        (x + y + z).subrange(x.len() as int, (x.len() + y.len()) as int) == y,
{
    assert((x + y + z).subrange(x.len() as int, (x.len() + y.len()) as int) =~= y);
}

proof fn lemma_entries_bytes_len(es: Seq<(usize, u64)>)
    ensures
        entries_bytes(es).len() == 12 * es.len(),
    decreases es.len(),
{
    if es.len() > 0 {
        lemma_entries_bytes_len(es.drop_last());
        crate::memory::lemma_be_bytes_len(es.last().0 as nat, 4);
        crate::memory::lemma_be_bytes_len(es.last().1 as nat, 8);
    }
}

/// Entries written at `p0` read back as themselves.
proof fn lemma_read_entries_image(d: Seq<u8>, p0: int, es: Seq<(usize, u64)>)
    requires
        0 <= p0,
        p0 + 12 * es.len() <= d.len(),
        d.subrange(p0, p0 + 12 * es.len()) == entries_bytes(es),
        forall|i: int| 0 <= i < es.len() ==> (#[trigger] es[i]).0 < 0x1_0000_0000,
    ensures
        read_entries(d, p0, es.len()) == Some((nat_entries(es), p0 + 12 * es.len())),
    decreases es.len(),
{
    lemma_entries_bytes_len(es);
    if es.len() > 0 {
        let n = es.len();
        let front = es.drop_last();
        lemma_entries_bytes_len(front);
        let p = p0 + 12 * (n - 1);
        let (l, o) = es.last();
        lemma_pow256_values();
        lemma_be_roundtrip(l as nat, 4);
        lemma_be_roundtrip(o as nat, 8);
        let whole = d.subrange(p0, p0 + 12 * n);
        assert(whole == entries_bytes(front) + be_bytes(l as nat, 4) + be_bytes(o as nat, 8));
        assert(d.subrange(p0, p) =~= whole.subrange(0, 12 * (n - 1)));
        assert(whole.subrange(0, 12 * (n - 1)) =~= entries_bytes(front));
        assert forall|i: int| 0 <= i < front.len() implies (#[trigger] front[i]).0 < 0x1_0000_0000 by {
            assert(front[i] == es[i]);
        }
        lemma_read_entries_image(d, p0, front);
        assert(d.subrange(p, p + 4) =~= whole.subrange(12 * (n - 1), 12 * (n - 1) + 4));
        lemma_middle(entries_bytes(front), be_bytes(l as nat, 4), be_bytes(o as nat, 8));
        assert(d.subrange(p + 4, p + 12) =~= whole.subrange(12 * (n - 1) + 4, (12 * n) as int));
        assert(whole.subrange(12 * (n - 1) + 4, (12 * n) as int) =~= be_bytes(o as nat, 8));
        assert(nat_entries(es) =~= nat_entries(front).push((l as nat, o as nat)));
    } else {
        assert(nat_entries(es) =~= Seq::<(nat, nat)>::empty());
    }
}

/// Source lines written at `p0` read back as `String::from_utf8` makes of
/// their bytes.
proof fn lemma_read_lines_image(d: Seq<u8>, p0: int, ls: Seq<Seq<char>>)
    requires
        0 <= p0,
        p0 + lines_bytes(ls).len() <= d.len(),
        d.subrange(p0, p0 + lines_bytes(ls).len()) == lines_bytes(ls),
        forall|i: int| 0 <= i < ls.len() ==> utf8(#[trigger] ls[i]).len() < 0x1_0000_0000,
    ensures
        read_lines(d, p0, ls.len()) == match decoded_lines(ls) {
            Err(e) => Err(e),
            Ok(r) => Ok((r, p0 + lines_bytes(ls).len())),
        },
    decreases ls.len(),
{
    if ls.len() > 0 {
        let n = ls.len();
        let front = ls.drop_last();
        let u = utf8(ls.last());
        let lf = lines_bytes(front).len();
        lemma_pow256_values();
        lemma_be_roundtrip(u.len(), 4);
        let whole = d.subrange(p0, p0 + lines_bytes(ls).len());
        assert(whole == lines_bytes(front) + be_bytes(u.len(), 4) + u);
        assert(d.subrange(p0, p0 + lf) =~= whole.subrange(0, lf as int));
        assert(whole.subrange(0, lf as int) =~= lines_bytes(front));
        assert forall|i: int| 0 <= i < front.len() implies utf8(#[trigger] front[i]).len()
            < 0x1_0000_0000 by {
            assert(front[i] == ls[i]);
        }
        assert(utf8(ls[n - 1]).len() < 0x1_0000_0000);
        lemma_read_lines_image(d, p0, front);
        let p = p0 + lf;
        lemma_middle(lines_bytes(front), be_bytes(u.len(), 4), u);
        let ul = u.len() as int;
        let lfi = lf as int;
        assert(d.subrange(p, p + 4) =~= whole.subrange(lfi, lfi + 4));
        assert(d.subrange(p + 4, p + 4 + ul) =~= whole.subrange(lfi + 4, lfi + 4 + ul));
        assert(whole.subrange(lfi + 4, lfi + 4 + ul) =~= u);
    }
}

/// `piece` sits right after `pre` at the start of `d`.
proof fn lemma_piece(d: Seq<u8>, pre: Seq<u8>, piece: Seq<u8>)
    requires
        pre.len() + piece.len() <= d.len(),
        d.subrange(0, (pre.len() + piece.len()) as int) == pre + piece,
    ensures
        d.subrange(pre.len() as int, (pre.len() + piece.len()) as int) == piece,
        d.subrange(0, pre.len() as int) == pre,
{
    let k = pre.len() as int;
    let t = (pre.len() + piece.len()) as int;
    assert(d.subrange(k, t) =~= (pre + piece).subrange(k, t));
    assert((pre + piece).subrange(k, t) =~= piece);
    assert(d.subrange(0, k) =~= (pre + piece).subrange(0, k));
    assert((pre + piece).subrange(0, k) =~= pre);
}

/// Where each part of an image lies.
#[verifier::spinoff_prover]
proof fn lemma_image_layout(
    entry: u64,
    code: Seq<u8>,
    entries: Seq<(usize, u64)>,
    name: Seq<char>,
    ls: Seq<Seq<char>>,
)
    ensures
        ({
            let d = mmb_image(entry, code, entries, name, ls);
            let cl = code.len() as int;
            let en = 12 * entries.len() as int;
            let nl = utf8(name).len() as int;
            &&& d.len() == 44 + cl + en + nl + lines_bytes(ls).len()
            &&& d.take(8) == magic_bin()
            &&& d.subrange(8, 16) == be_bytes(entry as nat, 8)
            &&& d.subrange(16, 24) == be_bytes(code.len(), 8)
            &&& d.subrange(24, 24 + cl) == code
            &&& d.subrange(24 + cl, 32 + cl) == magic_dbg()
            &&& d.subrange(32 + cl, 36 + cl) == be_bytes(entries.len(), 4)
            &&& d.subrange(36 + cl, 36 + cl + en) == entries_bytes(entries)
            &&& d.subrange(36 + cl + en, 40 + cl + en) == be_bytes(nl as nat, 4)
            &&& d.subrange(40 + cl + en, 40 + cl + en + nl) == utf8(name)
            &&& d.subrange(40 + cl + en + nl, 44 + cl + en + nl) == be_bytes(ls.len(), 4)
            &&& d.subrange(44 + cl + en + nl, d.len() as int) == lines_bytes(ls)
        }),
{
    lemma_entries_bytes_len(entries);
    crate::memory::lemma_be_bytes_len(entry as nat, 8);
    crate::memory::lemma_be_bytes_len(code.len(), 8);
    crate::memory::lemma_be_bytes_len(entries.len(), 4);
    crate::memory::lemma_be_bytes_len(utf8(name).len(), 4);
    crate::memory::lemma_be_bytes_len(ls.len(), 4);
    let a = magic_bin();
    let b = be_bytes(entry as nat, 8);
    let c = be_bytes(code.len(), 8);
    let dm = magic_dbg();
    let e = be_bytes(entries.len(), 4);
    let f = entries_bytes(entries);
    let g = be_bytes(utf8(name).len(), 4);
    let h = utf8(name);
    let i = be_bytes(ls.len(), 4);
    let j = lines_bytes(ls);
    let p1 = a;
    let p2 = p1 + b;
    let p3 = p2 + c;
    let p4 = p3 + code;
    let p5 = p4 + dm;
    let p6 = p5 + e;
    let p7 = p6 + f;
    let p8 = p7 + g;
    let p9 = p8 + h;
    let p10 = p9 + i;
    let d = mmb_image(entry, code, entries, name, ls);
    assert(d == p10 + j);
    assert(d.subrange(0, d.len() as int) =~= d);
    lemma_piece(d, p10, j);
    lemma_piece(d, p9, i);
    lemma_piece(d, p8, h);
    lemma_piece(d, p7, g);
    lemma_piece(d, p6, f);
    lemma_piece(d, p5, e);
    lemma_piece(d, p4, dm);
    lemma_piece(d, p3, code);
    lemma_piece(d, p2, c);
    lemma_piece(d, p1, b);
    assert(d.take(8) =~= d.subrange(0, 8));
}

/// An image reads back as what it was made of: the entry address, the
/// code, the line map, the source file name and the source lines.
#[verifier::spinoff_prover]
pub proof fn lemma_mmb_roundtrip(
    entry: u64,
    code: Seq<u8>,
    entries: Seq<(usize, u64)>,
    name: Seq<char>,
    ls: Seq<Seq<char>>,
)
    requires
        code.len() <= u64::MAX,
        entries.len() < 0x1_0000_0000,
        forall|i: int| 0 <= i < entries.len() ==> (#[trigger] entries[i]).0 < 0x1_0000_0000,
        utf8(name).len() < 0x1_0000_0000,
        ls.len() < 0x1_0000_0000,
        forall|i: int| 0 <= i < ls.len() ==> utf8(#[trigger] ls[i]).len() < 0x1_0000_0000,
    ensures
        parse_mmb(mmb_image(entry, code, entries, name, ls)) == Ok::<
            (u64, Seq<u8>, Option<MmbDebug>),
            Seq<char>,
        >(
            (
                entry,
                code,
                Some(
                    MmbDebug {
                        line_to_offset: entry_maps(nat_entries(entries)).0,
                        offset_to_line: entry_maps(nat_entries(entries)).1,
                        source_file: name,
                        source_lines: ls,
                    },
                ),
            ),
        ),
{
    lemma_pow256_values();
    lemma_be_roundtrip(entry as nat, 8);
    lemma_be_roundtrip(code.len(), 8);
    lemma_be_roundtrip(entries.len(), 4);
    lemma_be_roundtrip(utf8(name).len(), 4);
    lemma_be_roundtrip(ls.len(), 4);
    lemma_image_layout(entry, code, entries, name, ls);
    let d = mmb_image(entry, code, entries, name, ls);
    let cl = code.len() as int;
    let en = 12 * entries.len() as int;
    let nl = utf8(name).len() as int;
    lemma_read_entries_image(d, 36 + cl, entries);
    lemma_read_lines_image(d, 44 + cl + en + nl, ls);
    lemma_decode_utf8(name);
    lemma_decoded_lines(ls);
}

} // verus!
