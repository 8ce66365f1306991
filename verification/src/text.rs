//! Text handling for the assembler: whitespace, trimming, splitting,
//! number formatting and building strings from characters.

use vstd::prelude::*;
use vstd::string::StringExecFns;

verus! {

/// Unicode `White_Space`, as `char::is_whitespace` defines it.
pub open spec fn is_ws(c: char) -> bool {
    let u = c as u32;
    ||| 0x09 <= u <= 0x0D
    ||| u == 0x20
    ||| u == 0x85
    ||| u == 0xA0
    ||| u == 0x1680
    ||| 0x2000 <= u <= 0x200A
    ||| u == 0x2028
    ||| u == 0x2029
    ||| u == 0x202F
    ||| u == 0x205F
    ||| u == 0x3000
}

pub fn is_whitespace(c: char) -> (r: bool)
    ensures
        r == is_ws(c),
{
    let u = c as u32;
    (0x09 <= u && u <= 0x0D) || u == 0x20 || u == 0x85 || u == 0xA0 || u == 0x1680 || (0x2000 <= u
        && u <= 0x200A) || u == 0x2028 || u == 0x2029 || u == 0x202F || u == 0x205F || u == 0x3000
}

pub open spec fn is_digit(c: char) -> bool {
    '0' <= c <= '9'
}

/// `s` without leading whitespace.
pub open spec fn trim_start(s: Seq<char>) -> Seq<char>
    decreases s.len(),
{
    if s.len() > 0 && is_ws(s[0]) {
        trim_start(s.drop_first())
    } else {
        s
    }
}

/// `s` without trailing whitespace.
pub open spec fn trim_end(s: Seq<char>) -> Seq<char>
    decreases s.len(),
{
    if s.len() > 0 && is_ws(s.last()) {
        trim_end(s.drop_last())
    } else {
        s
    }
}

/// `s` without leading and trailing whitespace.
pub open spec fn trim(s: Seq<char>) -> Seq<char> {
    trim_end(trim_start(s))
}

/// Index of the first `c` in `s`.
pub open spec fn find_char(s: Seq<char>, c: char) -> Option<int>
    decreases s.len(),
{
    if s.len() == 0 {
        None
    } else if s[0] == c {
        Some(0)
    } else {
        match find_char(s.drop_first(), c) {
            Some(i) => Some(i + 1),
            None => None,
        }
    }
}

/// Index of the first whitespace character in `s`.
pub open spec fn find_ws(s: Seq<char>) -> Option<int>
    decreases s.len(),
{
    if s.len() == 0 {
        None
    } else if is_ws(s[0]) {
        Some(0)
    } else {
        match find_ws(s.drop_first()) {
            Some(i) => Some(i + 1),
            None => None,
        }
    }
}

/// The pieces of `s` between the occurrences of `sep` (at least one piece).
pub open spec fn split_on(s: Seq<char>, sep: char) -> Seq<Seq<char>>
    decreases s.len(),
{
    if s.len() == 0 {
        seq![Seq::empty()]
    } else {
        let parts = split_on(s.drop_last(), sep);
        if s.last() == sep {
            parts.push(Seq::empty())
        } else {
            parts.update(parts.len() - 1, parts.last().push(s.last()))
        }
    }
}

/// Splitting always yields at least one part.
pub proof fn lemma_split_on_nonempty(s: Seq<char>, sep: char)
    ensures
        split_on(s, sep).len() >= 1,
    decreases s.len(),
{
    if s.len() > 0 {
        lemma_split_on_nonempty(s.drop_last(), sep);
    }
}

/// `s` with one trailing `'\r'` removed.
pub open spec fn strip_cr(s: Seq<char>) -> Seq<char> {
    if s.len() > 0 && s.last() == '\r' {
        s.drop_last()
    } else {
        s
    }
}

/// The lines of a text, as `str::lines` gives them: split at `'\n'`, a
/// `'\r'` before the `'\n'` removed, and no empty line after a final `'\n'`.
pub open spec fn text_lines(s: Seq<char>) -> Seq<Seq<char>> {
    let parts = split_on(s, '\n');
    let n = parts.len();
    let k = if parts.last().len() == 0 {
        n - 1
    } else {
        n as int
    };
    Seq::new(k as nat, |i: int| if i < n - 1 { strip_cr(parts[i]) } else { parts[i] })
}

/// The characters of a string.
pub fn chars_of(s: &str) -> (v: Vec<char>)
    ensures
        v@ == s@,
{
    let n = s.unicode_len();
    let mut v: Vec<char> = Vec::new();
    let mut i: usize = 0;
    while i < n
        invariant
            n == s@.len(),
            i <= n,
            v@ == s@.take(i as int),
        decreases n - i,
    {
        let c = s.get_char(i);
        proof {
            assert(s@.take(i + 1) =~= s@.take(i as int).push(c));
        }
        v.push(c);
        i = i + 1;
    }
    proof {
        assert(s@.take(n as int) =~= s@);
    }
    v
}

/// Whether a string holds exactly the given characters.
pub fn str_eq_chars(s: &str, t: &[char]) -> (r: bool)
    ensures
        r == (s@ == t@),
{
    let n = s.unicode_len();
    if n != t.len() {
        return false;
    }
    let mut i: usize = 0;
    while i < n
        invariant
            n == s@.len(),
            n == t@.len(),
            i <= n,
            forall|j: int| 0 <= j < i ==> s@[j] == t@[j],
        decreases n - i,
    {
        if s.get_char(i) != t[i] {
            return false;
        }
        i = i + 1;
    }
    proof {
        assert(s@ =~= t@);
    }
    true
}

/// Whether two character sequences are equal.
pub fn chars_eq(s: &[char], t: &[char]) -> (r: bool)
    ensures
        r == (s@ == t@),
{
    if s.len() != t.len() {
        return false;
    }
    let mut i: usize = 0;
    while i < s.len()
        invariant
            s@.len() == t@.len(),
            i <= s@.len(),
            forall|j: int| 0 <= j < i ==> s@[j] == t@[j],
        decreases s@.len() - i,
    {
        if s[i] != t[i] {
            return false;
        }
        i = i + 1;
    }
    proof {
        assert(s@ =~= t@);
    }
    true
}

/// A copy of `s[from..to]`.
pub fn slice_chars(s: &[char], from: usize, to: usize) -> (v: Vec<char>)
    requires
        from <= to <= s@.len(),
    ensures
        v@ == s@.subrange(from as int, to as int),
{
    let mut v: Vec<char> = Vec::new();
    let mut i = from;
    while i < to
        invariant
            from <= i <= to <= s@.len(),
            v@ == s@.subrange(from as int, i as int),
        decreases to - i,
    {
        proof {
            assert(s@.subrange(from as int, i + 1) =~= s@.subrange(from as int, i as int).push(s@[i as int]));
        }
        v.push(s[i]);
        i = i + 1;
    }
    v
}

proof fn lemma_trim_start_skip(s: Seq<char>, i: int)
    requires
        0 <= i <= s.len(),
        forall|j: int| 0 <= j < i ==> is_ws(#[trigger] s[j]),
    ensures
        trim_start(s) == trim_start(s.subrange(i, s.len() as int)),
    decreases i,
{
    if i > 0 {
        assert(s.drop_first().subrange(i - 1, s.drop_first().len() as int) =~= s.subrange(i, s.len() as int));
        lemma_trim_start_skip(s.drop_first(), i - 1);
    } else {
        assert(s.subrange(0, s.len() as int) =~= s);
    }
}

proof fn lemma_trim_end_take(s: Seq<char>, k: int)
    requires
        0 <= k <= s.len(),
        forall|j: int| k <= j < s.len() ==> is_ws(#[trigger] s[j]),
    ensures
        trim_end(s) == trim_end(s.take(k)),
    decreases s.len() - k,
{
    if k < s.len() {
        assert(s.drop_last().take(k) =~= s.take(k));
        lemma_trim_end_take(s.drop_last(), k);
    } else {
        assert(s.take(k) =~= s);
    }
}

/// A copy of `s` without leading and trailing whitespace.
pub fn trim_chars(s: &[char]) -> (v: Vec<char>)
    ensures
        v@ == trim(s@),
{
    let mut i: usize = 0;
    while i < s.len() && is_whitespace(s[i])
        invariant
            i <= s@.len(),
            forall|j: int| 0 <= j < i ==> is_ws(#[trigger] s@[j]),
        decreases s@.len() - i,
    {
        i = i + 1;
    }
    let ghost rest = s@.subrange(i as int, s@.len() as int);
    proof {
        lemma_trim_start_skip(s@, i as int);
        assert(trim_start(rest) == rest);
    }
    let mut k: usize = s.len();
    while k > i && is_whitespace(s[k - 1])
        invariant
            i <= k <= s@.len(),
            rest == s@.subrange(i as int, s@.len() as int),
            forall|j: int| k <= j < s@.len() ==> is_ws(#[trigger] s@[j]),
        decreases k,
    {
        k = k - 1;
    }
    proof {
        let kk = k - i;
        assert forall|j: int| kk <= j < rest.len() implies is_ws(#[trigger] rest[j]) by {
            assert(rest[j] == s@[j + i]);
        }
        lemma_trim_end_take(rest, kk as int);
        assert(rest.take(kk as int) =~= s@.subrange(i as int, k as int));
        let t = rest.take(kk as int);
        if t.len() > 0 {
            assert(t.last() == s@[k - 1]);
        }
    }
    slice_chars(s, i, k)
}

/// A copy of `s` without trailing whitespace.
pub fn trim_end_chars(s: &[char]) -> (v: Vec<char>)
    ensures
        v@ == trim_end(s@),
{
    let mut k: usize = s.len();
    while k > 0 && is_whitespace(s[k - 1])
        invariant
            k <= s@.len(),
            forall|j: int| k <= j < s@.len() ==> is_ws(#[trigger] s@[j]),
        decreases k,
    {
        k = k - 1;
    }
    proof {
        lemma_trim_end_take(s@, k as int);
        let t = s@.take(k as int);
        if t.len() > 0 {
            assert(t.last() == s@[k - 1]);
        }
    }
    slice_chars(s, 0, k)
}

/// Index of the first `c` in `s`.
pub fn find(s: &[char], c: char) -> (r: Option<usize>)
    ensures
        match find_char(s@, c) {
            Some(i) => r == Some(i as usize),
            None => r is None,
        },
        r matches Some(i) ==> i < s@.len() && s@[i as int] == c && find_char(s@, c) == Some(i as int),
{
    let mut i: usize = 0;
    while i < s.len()
        invariant
            i <= s@.len(),
            forall|j: int| 0 <= j < i ==> s@[j] != c,
        decreases s@.len() - i,
    {
        if s[i] == c {
            proof {
                lemma_find_char_at(s@, c, i as int);
            }
            return Some(i);
        }
        i = i + 1;
    }
    proof {
        lemma_find_char_none(s@, c);
    }
    None
}

proof fn lemma_find_char_at(s: Seq<char>, c: char, i: int)
    requires
        0 <= i < s.len(),
        s[i] == c,
        forall|j: int| 0 <= j < i ==> s[j] != c,
    ensures
        find_char(s, c) == Some(i),
    decreases i,
{
    if i > 0 {
        lemma_find_char_at(s.drop_first(), c, i - 1);
    }
}

proof fn lemma_find_char_none(s: Seq<char>, c: char)
    requires
        forall|j: int| 0 <= j < s.len() ==> s[j] != c,
    ensures
        find_char(s, c) is None,
    decreases s.len(),
{
    if s.len() > 0 {
        lemma_find_char_none(s.drop_first(), c);
    }
}

/// Index of the first whitespace character in `s`.
pub fn find_whitespace(s: &[char]) -> (r: Option<usize>)
    ensures
        match find_ws(s@) {
            Some(i) => r == Some(i as usize),
            None => r is None,
        },
        r matches Some(i) ==> i < s@.len() && find_ws(s@) == Some(i as int),
{
    let mut i: usize = 0;
    while i < s.len()
        invariant
            i <= s@.len(),
            forall|j: int| 0 <= j < i ==> !is_ws(s@[j]),
        decreases s@.len() - i,
    {
        if is_whitespace(s[i]) {
            proof {
                lemma_find_ws_at(s@, i as int);
            }
            return Some(i);
        }
        i = i + 1;
    }
    proof {
        lemma_find_ws_none(s@);
    }
    None
}

proof fn lemma_find_ws_at(s: Seq<char>, i: int)
    requires
        0 <= i < s.len(),
        is_ws(s[i]),
        forall|j: int| 0 <= j < i ==> !is_ws(s[j]),
    ensures
        find_ws(s) == Some(i),
    decreases i,
{
    if i > 0 {
        lemma_find_ws_at(s.drop_first(), i - 1);
    }
}

proof fn lemma_find_ws_none(s: Seq<char>)
    requires
        forall|j: int| 0 <= j < s.len() ==> !is_ws(s[j]),
    ensures
        find_ws(s) is None,
    decreases s.len(),
{
    if s.len() > 0 {
        lemma_find_ws_none(s.drop_first());
    }
}

/// The pieces of `s` between the occurrences of `sep`.
pub fn split(s: &[char], sep: char) -> (parts: Vec<Vec<char>>)
    ensures
        parts@.len() == split_on(s@, sep).len(),
        forall|i: int| 0 <= i < parts@.len() ==> (#[trigger] parts@[i])@ == split_on(s@, sep)[i],
{
    let mut parts: Vec<Vec<char>> = Vec::new();
    parts.push(Vec::new());
    let mut i: usize = 0;
    proof {
        assert(s@.take(0) =~= Seq::<char>::empty());
    }
    while i < s.len()
        invariant
            i <= s@.len(),
            parts@.len() == split_on(s@.take(i as int), sep).len(),
            parts@.len() >= 1,
            forall|j: int| 0 <= j < parts@.len() ==> (#[trigger] parts@[j])@ == split_on(s@.take(i as int), sep)[j],
        decreases s@.len() - i,
    {
        let ghost prev = split_on(s@.take(i as int), sep);
        proof {
            assert(s@.take(i + 1).drop_last() =~= s@.take(i as int));
            assert(s@.take(i + 1).last() == s@[i as int]);
        }
        if s[i] == sep {
            parts.push(Vec::new());
            proof {
                assert forall|j: int| 0 <= j < parts@.len() implies (#[trigger] parts@[j])@ == split_on(
                    s@.take(i + 1),
                    sep,
                )[j] by {
                    if j < parts@.len() - 1 {
                        assert(parts@[j] == old_parts_at(parts@, j));
                    }
                }
            }
        } else {
            let last = parts.len() - 1;
            let mut piece = parts.pop().unwrap();
            piece.push(s[i]);
            parts.push(piece);
            proof {
                assert forall|j: int| 0 <= j < parts@.len() implies (#[trigger] parts@[j])@ == split_on(
                    s@.take(i + 1),
                    sep,
                )[j] by {}
            }
        }
        i = i + 1;
    }
    proof {
        assert(s@.take(s@.len() as int) =~= s@);
    }
    parts
}

spec fn old_parts_at(parts: Seq<Vec<char>>, j: int) -> Vec<char> {
    parts[j]
}

/// The lines of a text (see [`text_lines`]).
pub fn lines(s: &[char]) -> (out: Vec<Vec<char>>)
    ensures
        out@.len() == text_lines(s@).len(),
        forall|i: int| 0 <= i < out@.len() ==> (#[trigger] out@[i])@ == text_lines(s@)[i],
{
    let parts = split(s, '\n');
    proof {
        lemma_split_on_nonempty(s@, '\n');
    }
    let n = parts.len();
    let k = if parts[n - 1].len() == 0 {
        n - 1
    } else {
        n
    };
    let mut out: Vec<Vec<char>> = Vec::new();
    let mut i: usize = 0;
    while i < k
        invariant
            k <= n,
            n == parts@.len(),
            n == split_on(s@, '\n').len(),
            forall|j: int| 0 <= j < parts@.len() ==> (#[trigger] parts@[j])@ == split_on(s@, '\n')[j],
            k == text_lines(s@).len(),
            i <= k,
            out@.len() == i,
            forall|j: int| 0 <= j < i ==> (#[trigger] out@[j])@ == text_lines(s@)[j],
        decreases k - i,
    {
        let p = &parts[i];
        let line = if i < n - 1 && p.len() > 0 && p[p.len() - 1] == '\r' {
            slice_chars(p.as_slice(), 0, p.len() - 1)
        } else {
            slice_chars(p.as_slice(), 0, p.len())
        };
        proof {
            assert(p@.subrange(0, p@.len() as int) =~= p@);
            assert(p@.subrange(0, p@.len() - 1) =~= p@.drop_last());
        }
        out.push(line);
        i = i + 1;
    }
    out
}

// ---------------------------------------------------------------------------
// Building strings
// ---------------------------------------------------------------------------

/// `String::push`: appends one character.
#[verifier::external_body]
pub(crate) fn push_char(s: &mut String, c: char)
    ensures
        final(s)@ == old(s)@.push(c),
{
    s.push(c);
}

/// Appends the characters of `t` to `s`.
pub fn push_chars(s: &mut String, t: &[char])
    ensures
        final(s)@ == old(s)@ + t@,
{
    let mut i: usize = 0;
    while i < t.len()
        invariant
            i <= t@.len(),
            s@ == old(s)@ + t@.take(i as int),
        decreases t@.len() - i,
    {
        proof {
            assert(old(s)@ + t@.take(i + 1) =~= (old(s)@ + t@.take(i as int)).push(t@[i as int]));
        }
        push_char(s, t[i]);
        i = i + 1;
    }
    proof {
        assert(t@.take(t@.len() as int) =~= t@);
    }
}

/// Appends a string slice to `s`.
pub fn push_str(s: &mut String, t: &str)
    ensures
        final(s)@ == old(s)@ + t@,
{
    s.append(t);
}

/// The character of a digit value in base 16 (lower case).
pub open spec fn digit_char(d: nat) -> char {
    if d < 10 {
        ((d + 48) as u32) as char
    } else {
        ((d + 87) as u32) as char
    }
}

pub fn digit(d: u64) -> (c: char)
    requires
        d < 16,
    ensures
        c == digit_char(d as nat),
{
    match d {
        0 => '0',
        1 => '1',
        2 => '2',
        3 => '3',
        4 => '4',
        5 => '5',
        6 => '6',
        7 => '7',
        8 => '8',
        9 => '9',
        10 => 'a',
        11 => 'b',
        12 => 'c',
        13 => 'd',
        14 => 'e',
        _ => 'f',
    }
}

/// The digits of `v` in base `base`, most significant first.
pub open spec fn digits(v: nat, base: nat) -> Seq<char>
    decreases v,
{
    if v < base || base < 2 {
        seq![digit_char(v)]
    } else {
        proof {
            vstd::arithmetic::div_mod::lemma_div_decreases(v as int, base as int);
        }
        digits(v / base, base).push(digit_char(v % base))
    }
}

/// `v` in decimal, as `{}` formats it.
pub open spec fn decimal(v: nat) -> Seq<char> {
    digits(v, 10)
}

/// `v` in lower-case hexadecimal with a `0x` prefix, as `{:#x}` formats it.
pub open spec fn hex(v: nat) -> Seq<char> {
    seq!['0', 'x'] + digits(v, 16)
}

fn push_digits(s: &mut String, v: u64, base: u64)
    requires
        base == 10 || base == 16,
    ensures
        final(s)@ == old(s)@ + digits(v as nat, base as nat),
    decreases v,
{
    if v >= base {
        push_digits(s, v / base, base);
    }
    push_char(s, digit(v % base));
    proof {
        if v < base {
            assert(v % base == v);
        }
    }
}

/// Appends `v` in decimal.
pub fn push_decimal(s: &mut String, v: u64)
    ensures
        final(s)@ == old(s)@ + decimal(v as nat),
{
    push_digits(s, v, 10);
}

/// Appends `v` in hexadecimal with a `0x` prefix.
pub fn push_hex(s: &mut String, v: u64)
    ensures
        final(s)@ == old(s)@ + hex(v as nat),
{
    push_char(s, '0');
    push_char(s, 'x');
    push_digits(s, v, 16);
    proof {
        assert(old(s)@ + hex(v as nat) =~= old(s)@.push('0').push('x') + digits(v as nat, 16));
    }
}

// ---------------------------------------------------------------------------
// Letter case
// ---------------------------------------------------------------------------

/// What `str::to_uppercase` gives for a text.
pub uninterp spec fn upper(s: Seq<char>) -> Seq<char>;

/// What `str::to_lowercase` gives for a text.
pub uninterp spec fn lower(s: Seq<char>) -> Seq<char>;

/// Whether every character is ASCII.
pub open spec fn is_ascii_text(s: Seq<char>) -> bool {
    forall|i: int| 0 <= i < s.len() ==> (#[trigger] s[i] as u32) < 0x80
}

/// An ASCII letter `a`..`z` made upper case; other characters unchanged.
pub open spec fn ascii_upper(c: char) -> char {
    if 'a' <= c <= 'z' {
        (c as u32 - 32) as char
    } else {
        c
    }
}

/// An ASCII letter `A`..`Z` made lower case; other characters unchanged.
pub open spec fn ascii_lower(c: char) -> char {
    if 'A' <= c <= 'Z' {
        (c as u32 + 32) as char
    } else {
        c
    }
}

/// A text in upper case: letter by letter on ASCII text, and as
/// `str::to_uppercase` gives it otherwise.
pub open spec fn upper_text(s: Seq<char>) -> Seq<char> {
    if is_ascii_text(s) {
        s.map_values(|c: char| ascii_upper(c))
    } else {
        upper(s)
    }
}

/// A text in lower case: letter by letter on ASCII text, and as
/// `str::to_lowercase` gives it otherwise.
pub open spec fn lower_text(s: Seq<char>) -> Seq<char> {
    if is_ascii_text(s) {
        s.map_values(|c: char| ascii_lower(c))
    } else {
        lower(s)
    }
}

/// `str::to_uppercase` on the characters of `s`. On ASCII text, as its
/// documentation gives it, each letter `a`..`z` becomes `A`..`Z` and every
/// other character stays; what the Unicode case tables give for other
/// text is left unsaid.
#[verifier::external_body]
pub(crate) fn to_upper(s: &[char]) -> (r: Vec<char>)
    ensures
        r@ == upper(s@),
        is_ascii_text(s@) ==> r@ == s@.map_values(|c: char| ascii_upper(c)),
{
    s.iter().collect::<String>().to_uppercase().chars().collect()
}

/// `str::to_lowercase` on the characters of `s`. On ASCII text, as its
/// documentation gives it, each letter `A`..`Z` becomes `a`..`z` and every
/// other character stays; what the Unicode case tables give for other
/// text is left unsaid.
#[verifier::external_body]
pub(crate) fn to_lower(s: &[char]) -> (r: Vec<char>)
    ensures
        r@ == lower(s@),
        is_ascii_text(s@) ==> r@ == s@.map_values(|c: char| ascii_lower(c)),
{
    s.iter().collect::<String>().to_lowercase().chars().collect()
}

// ---------------------------------------------------------------------------
// UTF-8
// ---------------------------------------------------------------------------

/// The UTF-8 encoding of a character.
pub open spec fn utf8_char(c: char) -> Seq<u8> {
    let u = c as u32 as int;
    if u < 0x80 {
        seq![u as u8]
    } else if u < 0x800 {
        seq![(0xC0 + u / 64) as u8, (0x80 + u % 64) as u8]
    } else if u < 0x10000 {
        seq![(0xE0 + u / 4096) as u8, (0x80 + (u / 64) % 64) as u8, (0x80 + u % 64) as u8]
    } else {
        seq![
            (0xF0 + u / 262144) as u8,
            (0x80 + (u / 4096) % 64) as u8,
            (0x80 + (u / 64) % 64) as u8,
            (0x80 + u % 64) as u8,
        ]
    }
}

/// The UTF-8 encoding of a text, as `str::as_bytes` gives it.
pub open spec fn utf8(s: Seq<char>) -> Seq<u8>
    decreases s.len(),
{
    if s.len() == 0 {
        Seq::empty()
    } else {
        utf8(s.drop_last()) + utf8_char(s.last())
    }
}

/// Appends the UTF-8 encoding of `s`.
pub fn push_utf8(out: &mut Vec<u8>, s: &[char])
    ensures
        final(out)@ == old(out)@ + utf8(s@),
{
    let mut i: usize = 0;
    while i < s.len()
        invariant
            i <= s@.len(),
            out@ == old(out)@ + utf8(s@.take(i as int)),
        decreases s@.len() - i,
    {
        let ghost before = out@;
        let u: u32 = s[i] as u32;
        if u < 0x80 {
            out.push(u as u8);
        } else if u < 0x800 {
            out.push((0xC0 + u / 64) as u8);
            out.push((0x80 + u % 64) as u8);
        } else if u < 0x10000 {
            out.push((0xE0 + u / 4096) as u8);
            out.push((0x80 + (u / 64) % 64) as u8);
            out.push((0x80 + u % 64) as u8);
        } else {
            out.push((0xF0 + u / 262144) as u8);
            out.push((0x80 + (u / 4096) % 64) as u8);
            out.push((0x80 + (u / 64) % 64) as u8);
            out.push((0x80 + u % 64) as u8);
        }
        proof {
            assert(s@.take(i + 1).drop_last() =~= s@.take(i as int));
            assert(s@.take(i + 1).last() == s@[i as int]);
            assert(out@ =~= before + utf8_char(s@[i as int]));
        }
        i = i + 1;
    }
    proof {
        assert(s@.take(s@.len() as int) =~= s@);
    }
}

/// Whether a byte continues a character's encoding (`0b10xx_xxxx`).
pub open spec fn is_continuation(b: u8) -> bool {
    0x80 <= b < 0xC0
}

/// A character's encoding is one to four bytes: a leading byte, then
/// continuation bytes.
proof fn lemma_utf8_char_shape(c: char)
    ensures
        1 <= utf8_char(c).len() <= 4,
        !is_continuation(utf8_char(c)[0]),
        forall|j: int| 1 <= j < utf8_char(c).len() ==> is_continuation(#[trigger] utf8_char(c)[j]),
{
    let u = c as u32 as int;
    assert(u <= 0x10FFFF);
    if u < 0x80 {
    } else if u < 0x800 {
        assert(u / 64 < 32);
    } else if u < 0x10000 {
        assert(u / 4096 < 16);
        assert((u / 64) % 64 < 64);
    } else {
        assert(u / 262144 < 5);
        assert((u / 4096) % 64 < 64);
        assert((u / 64) % 64 < 64);
    }
}

/// Equal quotients and remainders by `d` make equal numbers.
proof fn lemma_digits_determine(u1: int, u2: int, d: int)
    requires
        d > 0,
        u1 / d == u2 / d,
        u1 % d == u2 % d,
    ensures
        u1 == u2,
{
    vstd::arithmetic::div_mod::lemma_fundamental_div_mod(u1, d);
    vstd::arithmetic::div_mod::lemma_fundamental_div_mod(u2, d);
}

/// Different characters have different encodings.
proof fn lemma_utf8_char_injective(c1: char, c2: char)
    requires
        utf8_char(c1) == utf8_char(c2),
    ensures
        c1 == c2,
{
    let u1 = c1 as u32 as int;
    let u2 = c2 as u32 as int;
    let e = utf8_char(c1);
    assert(u1 <= 0x10FFFF && u2 <= 0x10FFFF);
    if u1 < 0x80 {
        assert(u2 < 0x80);
        assert(e[0] == u1 && e[0] == u2);
    } else if u1 < 0x800 {
        assert(0x80 <= u2 < 0x800);
        assert(u1 / 64 < 32 && u2 / 64 < 32);
        assert(u1 / 64 == u2 / 64);
        assert(u1 % 64 == u2 % 64);
        lemma_digits_determine(u1, u2, 64);
    } else if u1 < 0x10000 {
        assert(0x800 <= u2 < 0x10000);
        assert(u1 / 4096 < 16 && u2 / 4096 < 16);
        assert(u1 / 4096 == u2 / 4096);
        assert((u1 / 64) % 64 == (u2 / 64) % 64);
        assert(u1 % 64 == u2 % 64);
        vstd::arithmetic::div_mod::lemma_div_denominator(u1, 64, 64);
        vstd::arithmetic::div_mod::lemma_div_denominator(u2, 64, 64);
        lemma_digits_determine(u1 / 64, u2 / 64, 64);
        lemma_digits_determine(u1, u2, 64);
    } else {
        assert(0x10000 <= u2);
        assert(u1 / 262144 < 5 && u2 / 262144 < 5);
        assert(u1 / 262144 == u2 / 262144);
        assert((u1 / 4096) % 64 == (u2 / 4096) % 64);
        assert((u1 / 64) % 64 == (u2 / 64) % 64);
        assert(u1 % 64 == u2 % 64);
        vstd::arithmetic::div_mod::lemma_div_denominator(u1, 64, 64);
        vstd::arithmetic::div_mod::lemma_div_denominator(u2, 64, 64);
        vstd::arithmetic::div_mod::lemma_div_denominator(u1, 4096, 64);
        vstd::arithmetic::div_mod::lemma_div_denominator(u2, 4096, 64);
        lemma_digits_determine(u1 / 4096, u2 / 4096, 64);
        lemma_digits_determine(u1 / 64, u2 / 64, 64);
        lemma_digits_determine(u1, u2, 64);
    }
}

/// A text is empty exactly when its encoding is.
proof fn lemma_utf8_empty(s: Seq<char>)
    ensures
        (utf8(s).len() == 0) == (s.len() == 0),
{
    if s.len() > 0 {
        lemma_utf8_char_shape(s.last());
    }
}

/// Different texts have different encodings: UTF-8 can be read back.
pub proof fn lemma_utf8_injective(s1: Seq<char>, s2: Seq<char>)
    requires
        utf8(s1) == utf8(s2),
    ensures
        s1 == s2,
    decreases s1.len(),
{
    lemma_utf8_empty(s1);
    lemma_utf8_empty(s2);
    if s1.len() > 0 && s2.len() > 0 {
        let a1 = utf8(s1.drop_last());
        let a2 = utf8(s2.drop_last());
        let e1 = utf8_char(s1.last());
        let e2 = utf8_char(s2.last());
        let x = utf8(s1);
        assert(x == a1 + e1);
        assert(x == a2 + e2);
        lemma_utf8_char_shape(s1.last());
        lemma_utf8_char_shape(s2.last());
        let n = x.len() as int;
        let k1 = e1.len() as int;
        let k2 = e2.len() as int;
        if k1 < k2 {
            assert(x[n - k1] == e1[0]);
            assert(x[n - k1] == e2[k2 - k1]);
            assert(false);
        }
        if k2 < k1 {
            assert(x[n - k2] == e2[0]);
            assert(x[n - k2] == e1[k1 - k2]);
            assert(false);
        }
        assert(e1 =~= x.subrange(n - k1, n));
        assert(e2 =~= x.subrange(n - k2, n));
        assert(a1 =~= x.subrange(0, n - k1));
        assert(a2 =~= x.subrange(0, n - k2));
        lemma_utf8_char_injective(s1.last(), s2.last());
        lemma_utf8_injective(s1.drop_last(), s2.drop_last());
        assert(s1 =~= s1.drop_last().push(s1.last()));
        assert(s2 =~= s2.drop_last().push(s2.last()));
    }
}

} // verus!
