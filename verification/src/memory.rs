//! Byte-addressed memory over the whole 64-bit address space. Every byte
//! that was never written reads as zero.

use std::collections::BTreeMap;
use vstd::prelude::*;

verus! {

broadcast use vstd::laws_cmp::group_laws_cmp;

/// The size of the address space.
pub open spec fn address_space() -> int {
    0x1_0000_0000_0000_0000
}

/// The byte at an address: the written value, or zero.
pub open spec fn byte_at(m: Map<u64, u8>, a: u64) -> u8 {
    if m.contains_key(a) {
        m[a]
    } else {
        0
    }
}

/// The address `i` bytes after `a`, wrapping around the address space.
pub open spec fn addr_add(a: u64, i: nat) -> u64 {
    ((a as int + i as int) % address_space()) as u64
}

/// The `n` bytes from address `a` on.
pub open spec fn load_bytes(m: Map<u64, u8>, a: u64, n: nat) -> Seq<u8> {
    Seq::new(n, |i: int| byte_at(m, addr_add(a, i as nat)))
}

/// Memory after the bytes `s` are written from address `a` on, in order.
pub open spec fn store_bytes(m: Map<u64, u8>, a: u64, s: Seq<u8>) -> Map<u64, u8>
    decreases s.len(),
{
    if s.len() == 0 {
        m
    } else {
        store_bytes(m, a, s.drop_last()).insert(addr_add(a, (s.len() - 1) as nat), s.last())
    }
}

/// The number whose big-endian bytes are `s`.
pub open spec fn be_value(s: Seq<u8>) -> nat
    decreases s.len(),
{
    if s.len() == 0 {
        0
    } else {
        be_value(s.drop_last()) * 256 + s.last() as nat
    }
}

/// The number whose little-endian bytes are `s`.
pub open spec fn le_value(s: Seq<u8>) -> nat
    decreases s.len(),
{
    if s.len() == 0 {
        0
    } else {
        s[0] as nat + 256 * le_value(s.drop_first())
    }
}

/// The lowest `n` bytes of `v`, most significant first.
pub open spec fn be_bytes(v: nat, n: nat) -> Seq<u8>
    decreases n,
{
    if n == 0 {
        Seq::empty()
    } else {
        be_bytes(v / 256, (n - 1) as nat).push((v % 256) as u8)
    }
}

/// The lowest `n` bytes of `v`, least significant first.
pub open spec fn le_bytes(v: nat, n: nat) -> Seq<u8>
    decreases n,
{
    if n == 0 {
        Seq::empty()
    } else {
        seq![(v % 256) as u8] + le_bytes(v / 256, (n - 1) as nat)
    }
}

pub open spec fn pow256(n: nat) -> nat
    decreases n,
{
    if n == 0 {
        1
    } else {
        256 * pow256((n - 1) as nat)
    }
}

/// Reading back bytes just stored gives those bytes.
pub proof fn lemma_load_store(m: Map<u64, u8>, a: u64, s: Seq<u8>)
    requires
        s.len() <= address_space(),
    ensures
        load_bytes(store_bytes(m, a, s), a, s.len()) == s,
    decreases s.len(),
{
    if s.len() > 0 {
        let s2 = s.drop_last();
        lemma_load_store(m, a, s2);
        let n = s.len();
        assert forall|j: int| 0 <= j < n - 1 implies byte_at(store_bytes(m, a, s), addr_add(a, j as nat))
            == s[j] by {
            assert(addr_add(a, j as nat) != addr_add(a, (n - 1) as nat));
            assert(load_bytes(store_bytes(m, a, s2), a, s2.len())[j] == s2[j]);
        }
        assert(load_bytes(store_bytes(m, a, s), a, n) =~= s);
    }
}

/// A big-endian value written to memory reads back as itself.
pub proof fn lemma_write_read_be(m: Map<u64, u8>, a: u64, v: nat, n: nat)
    requires
        n <= 8,
        v < pow256(n),
    ensures
        be_value(load_bytes(store_bytes(m, a, be_bytes(v, n)), a, n)) == v,
{
    lemma_be_roundtrip(v, n);
    lemma_load_store(m, a, be_bytes(v, n));
}

/// Storing bytes leaves every address outside the written range unchanged.
pub proof fn lemma_store_frame(m: Map<u64, u8>, a: u64, s: Seq<u8>, b: u64)
    requires
        forall|j: nat| j < s.len() ==> addr_add(a, j) != b,
    ensures
        byte_at(store_bytes(m, a, s), b) == byte_at(m, b),
    decreases s.len(),
{
    if s.len() > 0 {
        lemma_store_frame(m, a, s.drop_last(), b);
        assert(addr_add(a, (s.len() - 1) as nat) != b);
    }
}

/// Big-endian bytes of a number that fits read back as that number.
pub proof fn lemma_be_roundtrip(v: nat, n: nat)
    requires
        v < pow256(n),
    ensures
        be_bytes(v, n).len() == n,
        be_value(be_bytes(v, n)) == v,
    decreases n,
{
    if n > 0 {
        lemma_be_roundtrip(v / 256, (n - 1) as nat);
        let s = be_bytes(v, n);
        assert(s.drop_last() =~= be_bytes(v / 256, (n - 1) as nat));
    }
}

/// Little-endian bytes of a number that fits read back as that number.
pub proof fn lemma_le_roundtrip(v: nat, n: nat)
    requires
        v < pow256(n),
    ensures
        le_bytes(v, n).len() == n,
        le_value(le_bytes(v, n)) == v,
    decreases n,
{
    if n > 0 {
        lemma_le_roundtrip(v / 256, (n - 1) as nat);
        let s = le_bytes(v, n);
        assert(s.drop_first() =~= le_bytes(v / 256, (n - 1) as nat));
    }
}

/// Appends the lowest `n` bytes of `v`, most significant first.
pub fn push_be(out: &mut Vec<u8>, v: u64, n: u64)
    requires
        n <= 8,
    ensures
        final(out)@ == old(out)@ + be_bytes(v as nat, n as nat),
    decreases n,
{
    if n > 0 {
        push_be(out, v / 256, n - 1);
        out.push((v % 256) as u8);
        proof {
            assert(old(out)@ + be_bytes(v as nat, n as nat) =~= old(out)@ + be_bytes(
                (v / 256) as nat,
                (n - 1) as nat,
            ) + seq![(v % 256) as u8]);
        }
    } else {
        proof {
            assert(old(out)@ + be_bytes(v as nat, n as nat) =~= old(out)@);
        }
    }
}

/// The big-endian number of two byte strings one after the other.
proof fn lemma_be_value_concat(s: Seq<u8>, t: Seq<u8>)
    ensures
        be_value(s + t) == be_value(s) * pow256(t.len()) + be_value(t),
    decreases t.len(),
{
    if t.len() == 0 {
        assert(s + t =~= s);
        assert(pow256(0) == 1);
    } else {
        lemma_be_value_concat(s, t.drop_last());
        assert(be_value(s + t) == be_value((s + t).drop_last()) * 256 + (s + t).last() as nat);
        assert(be_value(t) == be_value(t.drop_last()) * 256 + t.last() as nat);
        assert((s + t).drop_last() =~= s + t.drop_last());
        assert((s + t).last() == t.last());
        let p = pow256(t.drop_last().len());
        assert(pow256(t.len()) == 256 * p);
        assert((be_value(s) * p + be_value(t.drop_last())) * 256 + t.last() as nat == be_value(s) * (256
            * p) + (be_value(t.drop_last()) * 256 + t.last() as nat)) by (nonlinear_arith);
    }
}

/// The bytes from `a` on split into the first `n` and the `k` after them.
proof fn lemma_load_split(m: Map<u64, u8>, a: u64, n: nat, k: nat)
    ensures
        load_bytes(m, a, n + k) == load_bytes(m, a, n) + load_bytes(m, addr_add(a, n), k),
{
    assert forall|i: int| 0 <= i < k implies #[trigger] addr_add(addr_add(a, n), i as nat) == addr_add(
        a,
        (n + i) as nat,
    ) by {
        vstd::arithmetic::div_mod::lemma_add_mod_noop(a as int + n as int, i, address_space());
        vstd::arithmetic::div_mod::lemma_mod_twice(a as int + n as int, address_space());
        vstd::arithmetic::div_mod::lemma_add_mod_noop((a as int + n as int) % address_space(), i, address_space());
    }
    assert(load_bytes(m, a, n + k) =~= load_bytes(m, a, n) + load_bytes(m, addr_add(a, n), k));
}

/// A little-endian number is the big-endian number of the reversed bytes.
proof fn lemma_le_is_reversed_be(s: Seq<u8>)
    ensures
        le_value(s) == be_value(s.reverse()),
    decreases s.len(),
{
    if s.len() > 0 {
        lemma_le_is_reversed_be(s.drop_first());
        assert(s.reverse() =~= s.drop_first().reverse().push(s[0]));
        assert(s.reverse().drop_last() =~= s.drop_first().reverse());
    }
}

/// How the reads of different widths at one address relate: the octa is
/// the tetra there followed by the tetra 4 bytes on, the tetra is the wyde
/// there followed by the wyde 2 bytes on (so the wyde is its upper half),
/// and the little-endian octa is the big-endian one of the same bytes in
/// reverse order.
pub proof fn lemma_read_widths(m: Map<u64, u8>, a: u64)
    ensures
        be_value(load_bytes(m, a, 8)) == be_value(load_bytes(m, a, 4)) * 0x1_0000_0000 + be_value(
            load_bytes(m, addr_add(a, 4), 4),
        ),
        be_value(load_bytes(m, a, 4)) == be_value(load_bytes(m, a, 2)) * 0x1_0000 + be_value(
            load_bytes(m, addr_add(a, 2), 2),
        ),
        be_value(load_bytes(m, a, 2)) == be_value(load_bytes(m, a, 4)) / 0x1_0000,
        le_value(load_bytes(m, a, 8)) == be_value(load_bytes(m, a, 8).reverse()),
{
    lemma_pow256_values();
    lemma_load_split(m, a, 4, 4);
    lemma_be_value_concat(load_bytes(m, a, 4), load_bytes(m, addr_add(a, 4), 4));
    lemma_load_split(m, a, 2, 2);
    lemma_be_value_concat(load_bytes(m, a, 2), load_bytes(m, addr_add(a, 2), 2));
    let lo = be_value(load_bytes(m, addr_add(a, 2), 2));
    let hi = be_value(load_bytes(m, a, 2));
    lemma_be_value_bound(load_bytes(m, addr_add(a, 2), 2));
    vstd::arithmetic::div_mod::lemma_fundamental_div_mod_converse(
        (hi * 0x1_0000 + lo) as int,
        0x1_0000,
        hi as int,
        lo as int,
    );
    lemma_le_is_reversed_be(load_bytes(m, a, 8));
}

/// A big-endian number is below 256 to the power of its length.
pub proof fn lemma_be_value_bound(s: Seq<u8>)
    ensures
        be_value(s) < pow256(s.len()),
    decreases s.len(),
{
    if s.len() > 0 {
        lemma_be_value_bound(s.drop_last());
        assert(pow256(s.len()) == 256 * pow256((s.len() - 1) as nat));
    }
}

/// The number whose big-endian bytes are `s[pos..pos + n]`.
pub fn read_be_at(s: &[u8], pos: usize, n: usize) -> (v: u64)
    requires
        n <= 8,
        pos + n <= s@.len(),
    ensures
        v == be_value(s@.subrange(pos as int, pos + n)),
{
    let mut acc: u64 = 0;
    let mut i: usize = pos;
    let len = s.len();
    let end = pos + n;
    assert(end <= len);
    proof {
        assert(s@.subrange(pos as int, pos as int) =~= Seq::<u8>::empty());
    }
    while i < end
        invariant
            end == pos + n,
            pos <= i <= pos + n,
            pos + n <= s@.len(),
            n <= 8,
            acc == be_value(s@.subrange(pos as int, i as int)),
        decreases end - i,
    {
        proof {
            let t = s@.subrange(pos as int, i + 1);
            assert(t.drop_last() =~= s@.subrange(pos as int, i as int));
            lemma_be_value_bound(t);
            lemma_pow256_monotonic(t.len(), 8);
            lemma_pow256_values();
            assert(t.last() == s@[i as int]);
            assert(be_value(t) == acc * 256 + s@[i as int]);
        }
        acc = acc * 256 + s[i] as u64;
        i = i + 1;
    }
    acc
}

/// The powers of 256 for the access widths in use.
pub proof fn lemma_pow256_values()
    ensures
        pow256(1) == 0x100,
        pow256(2) == 0x1_0000,
        pow256(4) == 0x1_0000_0000,
        pow256(8) == 0x1_0000_0000_0000_0000,
{
    reveal_with_fuel(pow256, 9);
}

/// `pow256` grows with its exponent.
pub proof fn lemma_pow256_monotonic(a: nat, b: nat)
    requires
        a <= b,
    ensures
        1 <= pow256(a) <= pow256(b),
    decreases b,
{
    if a < b {
        lemma_pow256_monotonic(a, (b - 1) as nat);
        assert(pow256(b) == 256 * pow256((b - 1) as nat));
    } else if b > 0 {
        lemma_pow256_monotonic(0, (b - 1) as nat);
        assert(pow256(b) == 256 * pow256((b - 1) as nat));
    }
}

proof fn lemma_word_bytes(v: u64)
    by (bit_vector)
    ensures
        (v >> 0u64) as u8 == v % 256 && (v >> 0u64) & 0xff == v % 256,
        (v >> 8u64) as u8 == (v / 0x100) % 256 && (v >> 8u64) & 0xff == (v / 0x100) % 256,
        (v >> 16u64) as u8 == (v / 0x1_0000) % 256 && (v >> 16u64) & 0xff == (v / 0x1_0000) % 256,
        (v >> 24u64) as u8 == (v / 0x100_0000) % 256 && (v >> 24u64) & 0xff == (v / 0x100_0000) % 256,
        (v >> 32u64) as u8 == (v / 0x1_0000_0000) % 256 && (v >> 32u64) & 0xff == (v / 0x1_0000_0000)
            % 256,
        (v >> 40u64) as u8 == (v / 0x100_0000_0000) % 256 && (v >> 40u64) & 0xff == (v
            / 0x100_0000_0000) % 256,
        (v >> 48u64) as u8 == (v / 0x1_0000_0000_0000) % 256 && (v >> 48u64) & 0xff == (v
            / 0x1_0000_0000_0000) % 256,
        (v >> 56u64) as u8 == (v / 0x100_0000_0000_0000) % 256 && (v >> 56u64) & 0xff == (v
            / 0x100_0000_0000_0000) % 256,
{
}

/// The byte `k` places up in a 64-bit value.
proof fn lemma_shr_byte(v: u64, k: nat)
    requires
        k < 8,
    ensures
        ((v >> (8 * k) as u64) as u8) as nat == (v as nat / pow256(k)) % 256,
        ((v >> (8 * k) as u64) & 0xff) as nat == (v as nat / pow256(k)) % 256,
{
    reveal_with_fuel(pow256, 9);
    lemma_word_bytes(v);
    if k == 0 {
        assert((8 * k) as u64 == 0u64);
        assert(pow256(k) == 1);
        assert(v as nat / 1 == (v / 1) as nat);
    } else if k == 1 {
        assert((8 * k) as u64 == 8u64);
        assert(pow256(k) == 256);
        assert(v as nat / 256 == (v / 256) as nat);
    } else if k == 2 {
        assert((8 * k) as u64 == 16u64);
        assert(pow256(k) == 65536);
        assert(v as nat / 65536 == (v / 65536) as nat);
    } else if k == 3 {
        assert((8 * k) as u64 == 24u64);
        assert(pow256(k) == 16777216);
        assert(v as nat / 16777216 == (v / 16777216) as nat);
    } else if k == 4 {
        assert((8 * k) as u64 == 32u64);
        assert(pow256(k) == 4294967296);
        assert(v as nat / 4294967296 == (v / 4294967296) as nat);
    } else if k == 5 {
        assert((8 * k) as u64 == 40u64);
        assert(pow256(k) == 1099511627776);
        assert(v as nat / 1099511627776 == (v / 1099511627776) as nat);
    } else if k == 6 {
        assert((8 * k) as u64 == 48u64);
        assert(pow256(k) == 281474976710656);
        assert(v as nat / 281474976710656 == (v / 281474976710656) as nat);
    } else if k == 7 {
        assert((8 * k) as u64 == 56u64);
        assert(pow256(k) == 72057594037927936);
        assert(v as nat / 72057594037927936 == (v / 72057594037927936) as nat);
    }
}

proof fn lemma_or_shl_bytes(acc: u64, b: u8)
    by (bit_vector)
    ensures
        acc < 1 ==> (acc | ((b as u64) << 0u64)) == acc + b as u64 * 1,
        acc < 0x100 ==> (acc | ((b as u64) << 8u64)) == acc + b as u64 * 0x100,
        acc < 0x1_0000 ==> (acc | ((b as u64) << 16u64)) == acc + b as u64 * 0x1_0000,
        acc < 0x100_0000 ==> (acc | ((b as u64) << 24u64)) == acc + b as u64 * 0x100_0000,
        acc < 0x1_0000_0000 ==> (acc | ((b as u64) << 32u64)) == acc + b as u64 * 0x1_0000_0000,
        acc < 0x100_0000_0000 ==> (acc | ((b as u64) << 40u64)) == acc + b as u64 * 0x100_0000_0000,
        acc < 0x1_0000_0000_0000 ==> (acc | ((b as u64) << 48u64)) == acc + b as u64
            * 0x1_0000_0000_0000,
        acc < 0x100_0000_0000_0000 ==> (acc | ((b as u64) << 56u64)) == acc + b as u64
            * 0x100_0000_0000_0000,
        acc < 0x100_0000_0000_0000 ==> (acc << 8u64) | (b as u64) == acc * 256 + b as u64,
{
}

/// Shifting a byte `k` places up, into a value below `256^k`, adds it on top.
proof fn lemma_or_shl_byte(acc: u64, b: u8, k: nat)
    requires
        k < 8,
        acc < pow256(k),
    ensures
        (acc | ((b as u64) << (8 * k) as u64)) as nat == acc as nat + b as nat * pow256(k),
{
    reveal_with_fuel(pow256, 9);
    lemma_or_shl_bytes(acc, b);
    if k == 0 {
        assert((8 * k) as u64 == 0u64);
    } else if k == 1 {
        assert((8 * k) as u64 == 8u64);
    } else if k == 2 {
        assert((8 * k) as u64 == 16u64);
    } else if k == 3 {
        assert((8 * k) as u64 == 24u64);
    } else if k == 4 {
        assert((8 * k) as u64 == 32u64);
    } else if k == 5 {
        assert((8 * k) as u64 == 40u64);
    } else if k == 6 {
        assert((8 * k) as u64 == 48u64);
    } else if k == 7 {
        assert((8 * k) as u64 == 56u64);
    }
}

/// Byte `i` of the big-endian bytes of `v`.
proof fn lemma_be_bytes_index(v: nat, n: nat, i: nat)
    requires
        i < n,
    ensures
        be_bytes(v, n).len() == n,
        be_bytes(v, n)[i as int] as nat == (v / pow256((n - 1 - i) as nat)) % 256,
    decreases n,
{
    lemma_be_bytes_len(v, n);
    let s = be_bytes(v, n);
    let s1 = be_bytes(v / 256, (n - 1) as nat);
    assert(s == s1.push((v % 256) as u8));
    lemma_be_bytes_len(v / 256, (n - 1) as nat);
    if i < n - 1 {
        lemma_be_bytes_index(v / 256, (n - 1) as nat, i);
        let k = (n - 1 - i) as nat;
        let k1 = (k - 1) as nat;
        assert(k1 == (n - 1 - 1 - i) as nat);
        lemma_pow256_monotonic(0, k1);
        assert(pow256(k) == 256 * pow256(k1));
        assert(v / 256 / pow256(k1) == v / (256 * pow256(k1))) by {
            vstd::arithmetic::div_mod::lemma_div_denominator(v as int, 256, pow256(k1) as int);
        }
        assert(s[i as int] == s1[i as int]);
        assert(s1[i as int] as nat == (v / 256 / pow256(k1)) % 256);
        assert(s[i as int] as nat == (v / pow256(k)) % 256);
    } else {
        assert(pow256(0) == 1);
        assert(s[i as int] == (v % 256) as u8);
        assert((v % 256) as u8 as nat == v % 256);
        assert(v / pow256(0) == v);
    }
}

/// Big-endian bytes have the length asked for.
pub proof fn lemma_be_bytes_len(v: nat, n: nat)
    ensures
        be_bytes(v, n).len() == n,
    decreases n,
{
    if n > 0 {
        lemma_be_bytes_len(v / 256, (n - 1) as nat);
    }
}

/// Byte `i` of the little-endian bytes of `v`.
proof fn lemma_le_bytes_index(v: nat, n: nat, i: nat)
    requires
        i < n,
    ensures
        le_bytes(v, n).len() == n,
        le_bytes(v, n)[i as int] as nat == (v / pow256(i)) % 256,
    decreases n,
{
    lemma_le_bytes_len(v, n);
    let s = le_bytes(v, n);
    let s1 = le_bytes(v / 256, (n - 1) as nat);
    assert(s == seq![(v % 256) as u8] + s1);
    lemma_le_bytes_len(v / 256, (n - 1) as nat);
    if i > 0 {
        lemma_le_bytes_index(v / 256, (n - 1) as nat, (i - 1) as nat);
        let i1 = (i - 1) as nat;
        lemma_pow256_monotonic(0, i1);
        assert(pow256(i) == 256 * pow256(i1));
        assert(v / 256 / pow256(i1) == v / (256 * pow256(i1))) by {
            vstd::arithmetic::div_mod::lemma_div_denominator(v as int, 256, pow256(i1) as int);
        }
        assert(s[i as int] == s1[i1 as int]);
    } else {
        assert(pow256(0) == 1);
        assert(s[0] == (v % 256) as u8);
    }
}

proof fn lemma_le_bytes_len(v: nat, n: nat)
    ensures
        le_bytes(v, n).len() == n,
    decreases n,
{
    if n > 0 {
        lemma_le_bytes_len(v / 256, (n - 1) as nat);
    }
}

/// Appending a byte to little-endian bytes adds it at the top.
proof fn lemma_le_value_push(s: Seq<u8>, b: u8)
    ensures
        le_value(s.push(b)) == le_value(s) + b as nat * pow256(s.len()),
    decreases s.len(),
{
    let t = s.push(b);
    if s.len() == 0 {
        assert(t.drop_first() =~= Seq::<u8>::empty());
        assert(le_value(t) == t[0] as nat + 256 * le_value(t.drop_first()));
        assert(pow256(0) == 1);
    } else {
        assert(t.drop_first() =~= s.drop_first().push(b));
        lemma_le_value_push(s.drop_first(), b);
        let p = pow256((s.len() - 1) as nat);
        assert(pow256(s.len()) == 256 * p);
        assert(le_value(t) == t[0] as nat + 256 * le_value(t.drop_first()));
        assert(le_value(s) == s[0] as nat + 256 * le_value(s.drop_first()));
        let l = le_value(s.drop_first());
        assert(256 * (l + b as nat * p) == 256 * l + b as nat * (256 * p)) by (nonlinear_arith);
    }
}

/// `wrapping_add` is addition in the address space.
proof fn lemma_wrapping_addr(a: u64, i: u64)
    ensures
        a.wrapping_add(i) == addr_add(a, i as nat),
{
}

/// Byte-addressed memory; bytes that were never written read as zero.
pub struct Memory {
    data: BTreeMap<u64, u8>,
}

impl View for Memory {
    type V = Map<u64, u8>;

    closed spec fn view(&self) -> Map<u64, u8> {
        self.data@
    }
}

impl Memory {
    /// The memory holds finitely many written bytes.
    pub proof fn lemma_finite(&self)
        ensures
            self@.dom().finite(),
    {
    }

    pub fn new() -> (m: Self)
        ensures
            m@ == Map::<u64, u8>::empty(),
    {
        Self { data: BTreeMap::new() }
    }

    /// The number of bytes ever written (at distinct addresses).
    pub fn written_len(&self) -> (n: usize)
        ensures
            n == self@.len(),
    {
        self.data.len()
    }

    pub fn read_u8(&self, addr: u64) -> (b: u8)
        ensures
            b == byte_at(self@, addr),
    {
        match self.data.get(&addr) {
            Some(b) => *b,
            None => 0,
        }
    }

    pub fn write_u8(&mut self, addr: u64, value: u8)
        ensures
            final(self)@ == old(self)@.insert(addr, value),
    {
        self.data.insert(addr, value);
    }

    /// The same as [`Memory::read_u8`].
    pub fn read_byte(&self, addr: u64) -> (b: u8)
        ensures
            b == byte_at(self@, addr),
    {
        self.read_u8(addr)
    }

    /// The same as [`Memory::write_u8`].
    pub fn write_byte(&mut self, addr: u64, value: u8)
        ensures
            final(self)@ == old(self)@.insert(addr, value),
    {
        self.write_u8(addr, value)
    }

    /// Reads `n` bytes from `addr` on as one big-endian number.
    fn read_be(&self, addr: u64, n: u64) -> (v: u64)
        requires
            n <= 8,
        ensures
            v as nat == be_value(load_bytes(self@, addr, n as nat)),
            (v as nat) < pow256(n as nat),
    {
        let ghost s = load_bytes(self@, addr, n as nat);
        let mut acc: u64 = 0;
        let mut i: u64 = 0;
        proof {
            assert(s.take(0) =~= Seq::<u8>::empty());
        }
        while i < n
            invariant
                i <= n <= 8,
                s == load_bytes(self@, addr, n as nat),
                acc as nat == be_value(s.take(i as int)),
                (acc as nat) < pow256(i as nat),
            decreases n - i,
        {
            let b = self.read_u8(addr.wrapping_add(i));
            proof {
                lemma_wrapping_addr(addr, i);
                assert(s.take(i + 1).drop_last() =~= s.take(i as int));
                lemma_pow256_monotonic(i as nat, 7);
                reveal_with_fuel(pow256, 8);
                lemma_or_shl_bytes(acc, b);
            }
            acc = (acc << 8) | b as u64;
            i = i + 1;
        }
        proof {
            assert(s.take(n as int) =~= s);
        }
        acc
    }

    /// Writes the lowest `n` bytes of `val`, most significant first, from `addr` on.
    fn write_be(&mut self, addr: u64, val: u64, n: u64)
        requires
            n <= 8,
        ensures
            final(self)@ == store_bytes(old(self)@, addr, be_bytes(val as nat, n as nat)),
    {
        let ghost s = be_bytes(val as nat, n as nat);
        proof {
            lemma_be_bytes_len(val as nat, n as nat);
            assert(s.take(0) =~= Seq::<u8>::empty());
        }
        let mut i: u64 = 0;
        while i < n
            invariant
                i <= n <= 8,
                s == be_bytes(val as nat, n as nat),
                s.len() == n,
                self@ == store_bytes(old(self)@, addr, s.take(i as int)),
            decreases n - i,
        {
            let k = n - 1 - i;
            let b = (val >> (8 * k)) as u8;
            proof {
                lemma_wrapping_addr(addr, i);
                lemma_shr_byte(val, k as nat);
                lemma_be_bytes_index(val as nat, n as nat, i as nat);
                assert(s.take(i + 1).drop_last() =~= s.take(i as int));
            }
            self.write_u8(addr.wrapping_add(i), b);
            i = i + 1;
        }
        proof {
            assert(s.take(n as int) =~= s);
        }
    }

    /// Reads a 16-bit value in big-endian byte order.
    pub fn read_u16(&self, addr: u64) -> (v: u16)
        ensures
            v as nat == be_value(load_bytes(self@, addr, 2)),
    {
        proof { lemma_pow256_values(); }
        self.read_be(addr, 2) as u16
    }

    /// Reads a 32-bit value in big-endian byte order.
    pub fn read_u32(&self, addr: u64) -> (v: u32)
        ensures
            v as nat == be_value(load_bytes(self@, addr, 4)),
    {
        proof { lemma_pow256_values(); }
        self.read_be(addr, 4) as u32
    }

    /// Reads a 64-bit value in big-endian byte order.
    pub fn read_u64(&self, addr: u64) -> (v: u64)
        ensures
            v as nat == be_value(load_bytes(self@, addr, 8)),
    {
        self.read_be(addr, 8)
    }

    /// Writes a 16-bit value in big-endian byte order.
    pub fn write_u16(&mut self, addr: u64, val: u16)
        ensures
            final(self)@ == store_bytes(old(self)@, addr, be_bytes(val as nat, 2)),
    {
        self.write_be(addr, val as u64, 2)
    }

    /// Writes a 32-bit value in big-endian byte order.
    pub fn write_u32(&mut self, addr: u64, val: u32)
        ensures
            final(self)@ == store_bytes(old(self)@, addr, be_bytes(val as nat, 4)),
    {
        self.write_be(addr, val as u64, 4)
    }

    /// Writes a 64-bit value in big-endian byte order.
    pub fn write_u64(&mut self, addr: u64, val: u64)
        ensures
            final(self)@ == store_bytes(old(self)@, addr, be_bytes(val as nat, 8)),
    {
        self.write_be(addr, val, 8)
    }

    /// Reads a 64-bit value in little-endian byte order.
    pub fn read_u64_le(&self, addr: u64) -> (v: u64)
        ensures
            v as nat == le_value(load_bytes(self@, addr, 8)),
    {
        let ghost s = load_bytes(self@, addr, 8);
        let mut acc: u64 = 0;
        let mut offset: u64 = 0;
        proof {
            assert(s.take(0) =~= Seq::<u8>::empty());
            reveal_with_fuel(pow256, 1);
        }
        while offset < 8
            invariant
                offset <= 8,
                s == load_bytes(self@, addr, 8),
                acc as nat == le_value(s.take(offset as int)),
                (acc as nat) < pow256(offset as nat),
            decreases 8 - offset,
        {
            let byte = self.read_u8(addr.wrapping_add(offset));
            proof {
                lemma_wrapping_addr(addr, offset);
                assert(s.take(offset + 1) =~= s.take(offset as int).push(byte));
                lemma_le_value_push(s.take(offset as int), byte);
                lemma_or_shl_byte(acc, byte, offset as nat);
                assert(pow256((offset + 1) as nat) == 256 * pow256(offset as nat));
                assert(acc as nat + byte as nat * pow256(offset as nat) < 256 * pow256(offset as nat))
                    by (nonlinear_arith)
                    requires
                        (acc as nat) < pow256(offset as nat),
                        byte < 256,
                ;
            }
            acc = acc | ((byte as u64) << (offset * 8));
            offset = offset + 1;
        }
        proof {
            assert(s.take(8) =~= s);
        }
        acc
    }

    /// Writes a 64-bit value in little-endian byte order.
    pub fn write_u64_le(&mut self, addr: u64, value: u64)
        ensures
            final(self)@ == store_bytes(old(self)@, addr, le_bytes(value as nat, 8)),
    {
        let ghost s = le_bytes(value as nat, 8);
        proof {
            lemma_le_bytes_len(value as nat, 8);
            assert(s.take(0) =~= Seq::<u8>::empty());
        }
        let mut offset: u64 = 0;
        while offset < 8
            invariant
                offset <= 8,
                s == le_bytes(value as nat, 8),
                s.len() == 8,
                self@ == store_bytes(old(self)@, addr, s.take(offset as int)),
            decreases 8 - offset,
        {
            let byte = ((value >> (offset * 8)) & 0xff) as u8;
            proof {
                lemma_wrapping_addr(addr, offset);
                lemma_shr_byte(value, offset as nat);
                lemma_le_bytes_index(value as nat, 8, offset as nat);
                assert(s.take(offset + 1).drop_last() =~= s.take(offset as int));
            }
            self.write_u8(addr.wrapping_add(offset), byte);
            offset = offset + 1;
        }
        proof {
            assert(s.take(8) =~= s);
        }
    }
}


impl Default for Memory {
    fn default() -> (r: Self)
        ensures
            r@ == Map::<u64, u8>::empty(),
    {
        Self::new()
    }
}

} // verus!
