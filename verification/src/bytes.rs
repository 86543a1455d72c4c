//! Big-endian byte strings as unsigned integers.
//!
//! Every protocol value in this crate travels as a big-endian byte string;
//! the specifications interpret such strings through `nat_of_be` and encode
//! integers back through `be_of_nat`, which mirrors the canonical encoding
//! the big-integer library produces (a single zero byte for zero, no leading
//! zero byte otherwise).

use vstd::prelude::*;

verus! {

/// The unsigned integer denoted by a big-endian byte string.
pub open spec fn nat_of_be(s: Seq<u8>) -> nat
    decreases s.len(),
{
    if s.len() == 0 {
        0
    } else {
        (nat_of_be(s.drop_last()) * 256 + s.last()) as nat
    }
}

/// The big-endian digits of an integer, most significant first, with no
/// leading zero byte; empty for zero.
pub open spec fn be_digits(n: nat) -> Seq<u8>
    decreases n,
{
    if n == 0 {
        Seq::empty()
    } else {
        be_digits(n / 256) + seq![(n % 256) as u8]
    }
}

/// The canonical big-endian encoding of an integer: a single zero byte for
/// zero, otherwise the minimal digit string.
pub open spec fn be_of_nat(n: nat) -> Seq<u8> {
    if n == 0 {
        seq![0u8]
    } else {
        be_digits(n)
    }
}

/// Appending one byte multiplies the denoted value by 256 and adds the byte.
pub proof fn lemma_nat_of_be_append_byte(s: Seq<u8>, b: u8)
    ensures
        nat_of_be(s + seq![b]) == nat_of_be(s) * 256 + b,
{
    assert((s + seq![b]).drop_last() =~= s);
}

/// Decoding the digit string of `n` yields `n` again.
pub proof fn lemma_be_digits_roundtrip(n: nat)
    ensures
        nat_of_be(be_digits(n)) == n,
    decreases n,
{
    if n > 0 {
        lemma_be_digits_roundtrip(n / 256);
        lemma_nat_of_be_append_byte(be_digits(n / 256), (n % 256) as u8);
        vstd::arithmetic::div_mod::lemma_fundamental_div_mod(n as int, 256);
    }
}

/// Decoding the canonical encoding of `n` yields `n` again.
pub proof fn lemma_be_roundtrip(n: nat)
    ensures
        nat_of_be(be_of_nat(n)) == n,
{
    if n == 0 {
        assert(seq![0u8].drop_last() =~= Seq::<u8>::empty());
        assert(nat_of_be(Seq::<u8>::empty()) == 0);
        assert(nat_of_be(seq![0u8]) == nat_of_be(seq![0u8].drop_last()) * 256 + seq![0u8].last());
    } else {
        lemma_be_digits_roundtrip(n);
    }
}

/// A byte string with a nonzero leading byte denotes a positive integer.
pub proof fn lemma_nat_of_be_pos(s: Seq<u8>)
    requires
        s.len() > 0,
        s[0] != 0,
    ensures
        nat_of_be(s) > 0,
    decreases s.len(),
{
    if s.len() == 1 {
        assert(s.drop_last() =~= Seq::<u8>::empty());
    } else {
        lemma_nat_of_be_pos(s.drop_last());
    }
}

/// A byte string without a superfluous leading zero is its own canonical
/// encoding.
pub proof fn lemma_minimal_roundtrip(s: Seq<u8>)
    requires
        s.len() > 0,
        s.len() > 1 ==> s[0] != 0,
    ensures
        be_of_nat(nat_of_be(s)) == s,
    decreases s.len(),
{
    let v = nat_of_be(s);
    if s.len() == 1 {
        assert(s.drop_last() =~= Seq::<u8>::empty());
        assert(nat_of_be(Seq::<u8>::empty()) == 0);
        assert(s.last() == s[0]);
        assert(v == s[0]);
        if s[0] == 0 {
            assert(be_of_nat(0) =~= s);
        } else {
            assert(be_digits((v / 256) as nat) =~= Seq::<u8>::empty());
            assert(be_digits(v) =~= s) by {
                assert(v / 256 == 0 && v % 256 == v);
            }
        }
    } else {
        let prefix = s.drop_last();
        let b = s.last();
        assert(prefix[0] == s[0]);
        lemma_minimal_roundtrip(prefix);
        lemma_nat_of_be_pos(prefix);
        let pv = nat_of_be(prefix);
        assert(v == pv * 256 + b);
        vstd::arithmetic::div_mod::lemma_fundamental_div_mod_converse(
            v as int, 256, pv as int, b as int);
        assert(v > 0) by {
            assert(pv * 256 >= 1 * 256) by (nonlinear_arith)
                requires pv >= 1;
        }
        assert(be_digits(v) == be_digits(pv) + seq![b]);
        assert(be_digits(pv) == prefix);
        assert(prefix + seq![b] =~= s);
    }
}

/// Returns `v` with all of `s` appended.
pub fn push_all(v: Vec<u8>, s: &[u8]) -> (r: Vec<u8>)
    ensures
        r@ == v@ + s@,
{
    let mut out = v;
    let ghost orig = out@;
    let mut i: usize = 0;
    while i < s.len()
        invariant
            i <= s.len(),
            out@ == orig + s@.take(i as int),
        decreases s.len() - i,
    {
        out.push(s[i]);
        assert(s@.take(i + 1 as int) =~= s@.take(i as int) + seq![s@[i as int]]);
        i = i + 1;
    }
    assert(s@.take(s@.len() as int) =~= s@);
    out
}

/// Concatenates two byte strings.
pub fn concat_bytes(a: &[u8], b: &[u8]) -> (r: Vec<u8>)
    ensures
        r@ == a@ + b@,
{
    let first = push_all(Vec::new(), a);
    assert(first@ =~= a@);
    push_all(first, b)
}

} // verus!
