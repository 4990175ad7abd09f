//! Byte sequences: comparison, searching, and little endian integers.

use vstd::arithmetic::div_mod::lemma_div_denominator;
use vstd::arithmetic::power::{lemma_pow0, lemma_pow_positive, pow};
use vstd::prelude::*;

verus! {

/// The number that `s` encodes, least significant byte first.
pub open spec fn le_value(s: Seq<u8>) -> nat
    decreases s.len(),
{
    if s.len() == 0 {
        0
    } else {
        s[0] as nat + 256 * le_value(s.drop_first())
    }
}

/// The `n` least significant bytes of `v`, least significant byte first.
pub open spec fn le_bytes(v: nat, n: nat) -> Seq<u8>
    decreases n,
{
    if n == 0 {
        Seq::empty()
    } else {
        seq![(v % 256) as u8] + le_bytes(v / 256, (n - 1) as nat)
    }
}

/// 256 to the power of `n`: how many values fit into `n` bytes.
pub open spec fn byte_range(n: nat) -> nat
    decreases n,
{
    if n == 0 {
        1
    } else {
        256 * byte_range((n - 1) as nat)
    }
}

/// Eight bytes hold exactly the values of a `u64`.
pub proof fn lemma_byte_range_8()
    ensures
        byte_range(8) == u64::MAX as nat + 1,
{
    reveal_with_fuel(byte_range, 9);
}

/// A sequence of `n` bytes encodes a value below `256^n`.
pub proof fn lemma_le_value_bound(s: Seq<u8>)
    ensures
        le_value(s) < byte_range(s.len()),
    decreases s.len(),
{
    if s.len() > 0 {
        lemma_le_value_bound(s.drop_first());
    }
}

/// Decoding the bytes of a value gives the value back, provided that it
/// fits.
pub proof fn lemma_le_round_trip(v: nat, n: nat)
    requires
        v < byte_range(n),
    ensures
        le_bytes(v, n).len() == n,
        le_value(le_bytes(v, n)) == v,
    decreases n,
{
    if n > 0 {
        lemma_le_round_trip(v / 256, (n - 1) as nat);
        let rest = le_bytes(v / 256, (n - 1) as nat);
        assert(le_bytes(v, n).drop_first() =~= rest);
    }
}

/// Decode the eight little endian bytes at `at`.
pub fn read_le_u64(s: &[u8], at: usize) -> (v: u64)
    requires
        at + 8 <= s@.len(),
    ensures
        v == le_value(s@.subrange(at as int, at + 8)),
{
    let ghost field = s@.subrange(at as int, at + 8);
    let mut v: u64 = 0;
    let mut i: usize = 8;
    while i > 0
        invariant
            i <= 8,
            at + 8 <= s.len(),
            field == s@.subrange(at as int, at + 8),
            v == le_value(field.skip(i as int)),
        decreases i,
    {
        proof {
            let suffix = field.skip(i - 1);
            assert(suffix.drop_first() =~= field.skip(i as int));
            lemma_le_value_bound(suffix);
            lemma_byte_range_le_8(suffix.len());
        }
        i = i - 1;
        v = v * 256 + s[at + i] as u64;
    }
    assert(field.skip(0) =~= field);
    v
}

proof fn lemma_byte_range_le_8(n: nat)
    requires
        n <= 8,
    ensures
        byte_range(n) <= u64::MAX as nat + 1,
{
    reveal_with_fuel(byte_range, 9);
}

/// Append the eight little endian bytes of `v`.
pub fn push_le_u64(out: &mut Vec<u8>, v: u64)
    ensures
        final(out)@ == old(out)@ + le_bytes(v as nat, 8),
{
    let mut rest: u64 = v;
    let mut i: usize = 0;
    while i < 8
        invariant
            i <= 8,
            old(out)@ + le_bytes(v as nat, 8) =~= out@ + le_bytes(rest as nat, (8 - i) as nat),
        decreases 8 - i,
    {
        let ghost before = out@;
        out.push((rest % 256) as u8);
        assert(before + le_bytes(rest as nat, (8 - i) as nat) =~= out@ + le_bytes(
            (rest / 256) as nat,
            (8 - i - 1) as nat,
        ));
        rest = rest / 256;
        i = i + 1;
    }
    assert(le_bytes(rest as nat, 0) =~= Seq::<u8>::empty());
}

/// Check whether two slices hold the same bytes.
pub fn bytes_equal(a: &[u8], b: &[u8]) -> (r: bool)
    ensures
        r == (a@ == b@),
{
    if a.len() != b.len() {
        return false;
    }
    let mut i: usize = 0;
    while i < a.len()
        invariant
            i <= a@.len(),
            a@.len() == b@.len(),
            forall|j: int| 0 <= j < i ==> a@[j] == b@[j],
        decreases a@.len() - i,
    {
        if a[i] != b[i] {
            return false;
        }
        i = i + 1;
    }
    assert(a@ =~= b@);
    true
}

/// Where `b` occurs in `s` for the first time; the length of `s` if it does
/// not occur.
pub open spec fn first_index(s: Seq<u8>, b: u8) -> nat
    decreases s.len(),
{
    if s.len() == 0 || s[0] == b {
        0
    } else {
        1 + first_index(s.drop_first(), b)
    }
}

/// [`first_index`] is the one position that no `b` precedes and that is
/// either a `b` or the end.
pub proof fn lemma_first_index(s: Seq<u8>, b: u8, i: int)
    requires
        0 <= i <= s.len(),
        forall|j: int| 0 <= j < i ==> s[j] != b,
        i < s.len() ==> s[i] == b,
    ensures
        first_index(s, b) == i,
    decreases s.len(),
{
    if i > 0 {
        let rest = s.drop_first();
        assert forall|j: int| 0 <= j < i - 1 implies rest[j] != b by {
            assert(rest[j] == s[j + 1]);
        }
        lemma_first_index(rest, b, i - 1);
    }
}

/// What [`first_index`] says of the bytes before and at the position.
pub proof fn lemma_first_index_at(s: Seq<u8>, b: u8)
    ensures
        first_index(s, b) <= s.len(),
        forall|j: int| 0 <= j < first_index(s, b) ==> s[j] != b,
        first_index(s, b) < s.len() ==> s[first_index(s, b) as int] == b,
        first_index(s, b) < s.len() <==> s.contains(b),
    decreases s.len(),
{
    if s.len() > 0 && s[0] != b {
        let rest = s.drop_first();
        lemma_first_index_at(rest, b);
        assert forall|j: int| 0 <= j < first_index(s, b) implies s[j] != b by {
            if j > 0 {
                assert(s[j] == rest[j - 1]);
            }
        }
        if s.contains(b) {
            let j = choose|j: int| 0 <= j < s.len() && s[j] == b;
            assert(rest[j - 1] == b);
        }
    }
}

/// Find the first `b` in `s`; the length of `s` if there is none.
pub fn find_byte(s: &[u8], b: u8) -> (r: usize)
    ensures
        r == first_index(s@, b),
{
    let mut i: usize = 0;
    while i < s.len()
        invariant
            i <= s@.len(),
            forall|j: int| 0 <= j < i ==> s@[j] != b,
        decreases s@.len() - i,
    {
        if s[i] == b {
            proof {
                lemma_first_index(s@, b, i as int);
            }
            return i;
        }
        i = i + 1;
    }
    proof {
        lemma_first_index(s@, b, i as int);
    }
    i
}

/// The lexicographic order of byte sequences.
pub open spec fn bytes_lt(a: Seq<u8>, b: Seq<u8>) -> bool
    decreases a.len(),
{
    if b.len() == 0 {
        false
    } else if a.len() == 0 {
        true
    } else if a[0] != b[0] {
        a[0] < b[0]
    } else {
        bytes_lt(a.drop_first(), b.drop_first())
    }
}

/// Nothing precedes itself.
pub proof fn lemma_bytes_lt_irreflexive(a: Seq<u8>)
    ensures
        !bytes_lt(a, a),
    decreases a.len(),
{
    if a.len() > 0 {
        lemma_bytes_lt_irreflexive(a.drop_first());
    }
}

/// The order is transitive.
pub proof fn lemma_bytes_lt_transitive(a: Seq<u8>, b: Seq<u8>, c: Seq<u8>)
    requires
        bytes_lt(a, b),
        bytes_lt(b, c),
    ensures
        bytes_lt(a, c),
    decreases a.len(),
{
    if a.len() > 0 && a[0] == b[0] && b[0] == c[0] {
        lemma_bytes_lt_transitive(a.drop_first(), b.drop_first(), c.drop_first());
    }
}

/// Of two different sequences one precedes the other.
pub proof fn lemma_bytes_lt_total(a: Seq<u8>, b: Seq<u8>)
    ensures
        bytes_lt(a, b) || bytes_lt(b, a) || a == b,
    decreases a.len(),
{
    if a.len() > 0 && b.len() > 0 && a[0] == b[0] {
        lemma_bytes_lt_total(a.drop_first(), b.drop_first());
        if a.drop_first() == b.drop_first() {
            assert(a =~= seq![a[0]] + a.drop_first());
            assert(b =~= seq![b[0]] + b.drop_first());
        }
    } else if a.len() == 0 && b.len() == 0 {
        assert(a =~= b);
    }
}

/// Check whether `a` precedes `b` in the lexicographic order.
pub fn bytes_less(a: &[u8], b: &[u8]) -> (r: bool)
    ensures
        r == bytes_lt(a@, b@),
{
    let mut i: usize = 0;
    assert(a@.skip(0) =~= a@);
    assert(b@.skip(0) =~= b@);
    while i < a.len() && i < b.len()
        invariant
            i <= a@.len(),
            i <= b@.len(),
            bytes_lt(a@, b@) == bytes_lt(a@.skip(i as int), b@.skip(i as int)),
        decreases a@.len() - i,
    {
        if a[i] != b[i] {
            return a[i] < b[i];
        }
        assert(a@.skip(i as int).drop_first() =~= a@.skip(i + 1));
        assert(b@.skip(i as int).drop_first() =~= b@.skip(i + 1));
        i = i + 1;
    }
    i < b.len()
}

/// Check whether `s` starts with `prefix`.
pub fn starts_with(s: &[u8], prefix: &[u8]) -> (r: bool)
    ensures
        r == prefix@.is_prefix_of(s@),
{
    if s.len() < prefix.len() {
        return false;
    }
    let head = vstd::slice::slice_subrange(s, 0, prefix.len());
    bytes_equal(head, prefix)
}

/// Byte `i` of an encoded number is the `i`-th digit of it to the base 256,
/// counted from the least significant one.
pub proof fn bytes_are_digits(v: nat, n: nat, i: int)
    requires
        0 <= i < n,
    ensures
        le_bytes(v, n).len() == n,
        le_bytes(v, n)[i] == (v as int / pow(256, i as nat)) % 256,
    decreases n,
{
    let rest = le_bytes(v / 256, (n - 1) as nat);
    if n > 1 {
        bytes_are_digits(v / 256, (n - 1) as nat, if i > 0 { i - 1 } else { 0 });
    } else {
        assert(rest.len() == 0);
    }
    lemma_pow0(256);
    if i > 0 {
        let d = pow(256, (i - 1) as nat);
        lemma_pow_positive(256, (i - 1) as nat);
        lemma_div_denominator(v as int, 256, d);
        assert(pow(256, i as nat) == 256 * d) by {
            reveal(pow);
        }
        assert(le_bytes(v, n)[i] == rest[i - 1]);
    }
}

/// Eight bytes stand for the sum of their values, each weighted by its
/// position.
pub proof fn eight_bytes_add_up(s: Seq<u8>)
    requires
        s.len() == 8,
    ensures
        le_value(s) == s[0] + 0x100 * s[1] + 0x1_0000 * s[2] + 0x100_0000 * s[3] + 0x1_0000_0000
            * s[4] + 0x100_0000_0000 * s[5] + 0x1_0000_0000_0000 * s[6] + 0x100_0000_0000_0000
            * s[7],
{
    reveal_with_fuel(le_value, 9);
    let a = s.drop_first();
    let b = a.drop_first();
    let c = b.drop_first();
    let d = c.drop_first();
    let e = d.drop_first();
    let f = e.drop_first();
    let g = f.drop_first();
    assert(a[0] == s[1] && b[0] == s[2] && c[0] == s[3] && d[0] == s[4]);
    assert(e[0] == s[5] && f[0] == s[6] && g[0] == s[7]);
}

/// The first position in which two sequences differ decides which one precedes
/// the other: the one that ends there, or the one with the smaller byte. What
/// they have in common up to there, and what follows, does not matter.
pub proof fn first_difference_decides(common: Seq<u8>, a: Seq<u8>, b: Seq<u8>)
    requires
        a.len() == 0 || b.len() == 0 || a[0] != b[0],
    ensures
        bytes_lt(common + a, common + b) <==> b.len() > 0 && (a.len() == 0 || a[0] < b[0]),
    decreases common.len(),
{
    if common.len() > 0 {
        let rest = common.drop_first();
        first_difference_decides(rest, a, b);
        assert((common + a).drop_first() =~= rest + a);
        assert((common + b).drop_first() =~= rest + b);
    } else {
        assert(common + a =~= a);
        assert(common + b =~= b);
    }
}

} // verus!
