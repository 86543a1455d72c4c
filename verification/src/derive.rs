//! The protocol's hash derivations: the scrambler `u`, the multiplier `k`,
//! the private exponent input `x`, and the proofs `M1` and `M2`.
//!
//! Each formula is fixed bit for bit: concatenation order, the left-padding
//! of `g` to the width of `N`, and the XOR mixing in `M1` must be exactly
//! this, or the result interoperates with nothing.

use vstd::prelude::*;

use crate::bytes::concat_bytes;
use crate::bytes::push_all;
use crate::group::SrpGroup;
use crate::hash::HashAlg;

verus! {

/// `s` left-padded with zero bytes to `width` bytes.
pub open spec fn pad_left(s: Seq<u8>, width: nat) -> Seq<u8>
    recommends
        s.len() <= width,
{
    Seq::new((width - s.len()) as nat, |i: int| 0u8) + s
}

/// Byte-wise XOR of two equally long strings.
pub open spec fn xor_seq(a: Seq<u8>, b: Seq<u8>) -> Seq<u8>
    recommends
        a.len() == b.len(),
{
    Seq::new(a.len(), |i: int| a[i] ^ b[i])
}

/// The scrambler digest: `H(A || B)`.
pub open spec fn spec_u<H: HashAlg>(h: H, a_pub: Seq<u8>, b_pub: Seq<u8>) -> Seq<u8> {
    h.spec_digest(a_pub + b_pub)
}

/// The multiplier digest: `H(N || pad(g))`, `g` padded to the width of `N`.
pub open spec fn spec_k<H: HashAlg>(h: H, n: Seq<u8>, g: Seq<u8>) -> Seq<u8> {
    h.spec_digest(n + pad_left(g, n.len()))
}

/// The identity digest: `H(username || ":" || password)`.
pub open spec fn spec_identity_hash<H: HashAlg>(
    h: H,
    username: Seq<u8>,
    password: Seq<u8>,
) -> Seq<u8> {
    h.spec_digest(username + seq![58u8] + password)
}

/// The private exponent digest: `H(salt || identity_hash)`.
pub open spec fn spec_x<H: HashAlg>(h: H, identity_hash: Seq<u8>, salt: Seq<u8>) -> Seq<u8> {
    h.spec_digest(salt + identity_hash)
}

/// The client proof: `H((H(pad(g)) xor H(N)) || H(username) || salt || A || B || K)`.
pub open spec fn spec_m1<H: HashAlg>(
    h: H,
    a_pub: Seq<u8>,
    b_pub: Seq<u8>,
    key: Seq<u8>,
    username: Seq<u8>,
    salt: Seq<u8>,
    n: Seq<u8>,
    g: Seq<u8>,
) -> Seq<u8> {
    h.spec_digest(
        xor_seq(h.spec_digest(pad_left(g, n.len())), h.spec_digest(n)) + h.spec_digest(username)
            + salt + a_pub + b_pub + key,
    )
}

/// The expected server proof: `H(A || M1 || K)`.
pub open spec fn spec_m2<H: HashAlg>(h: H, a_pub: Seq<u8>, m1: Seq<u8>, key: Seq<u8>) -> Seq<u8> {
    h.spec_digest(a_pub + m1 + key)
}

/// Returns `s` left-padded with zero bytes to `width` bytes.
pub fn left_pad(s: &[u8], width: usize) -> (r: Vec<u8>)
    requires
        s@.len() <= width,
    ensures
        r@ == pad_left(s@, width as nat),
{
    let pad: usize = width - s.len();
    let mut out: Vec<u8> = Vec::new();
    let mut i: usize = 0;
    while i < pad
        invariant
            i <= pad,
            out@ == Seq::new(i as nat, |j: int| 0u8),
        decreases pad - i,
    {
        out.push(0);
        assert(out@ =~= Seq::new((i + 1) as nat, |j: int| 0u8));
        i = i + 1;
    }
    let r = push_all(out, s);
    assert(r@ =~= pad_left(s@, width as nat));
    r
}

/// Returns the byte-wise XOR of two equally long strings.
pub fn xor_bytes(a: &[u8], b: &[u8]) -> (r: Vec<u8>)
    requires
        a@.len() == b@.len(),
    ensures
        r@ == xor_seq(a@, b@),
{
    let mut out: Vec<u8> = Vec::new();
    let mut i: usize = 0;
    while i < a.len()
        invariant
            i <= a@.len(),
            a@.len() == b@.len(),
            out@ == xor_seq(a@, b@).take(i as int),
        decreases a@.len() - i,
    {
        out.push(a[i] ^ b[i]);
        assert(out@ =~= xor_seq(a@, b@).take((i + 1) as int));
        i = i + 1;
    }
    assert(out@ =~= xor_seq(a@, b@));
    out
}

/// The scrambler `u` as a digest: `H(A || B)`, to be read as an integer.
pub fn compute_u<H: HashAlg>(hash: &H, a_pub: &[u8], b_pub: &[u8]) -> (r: Vec<u8>)
    ensures
        r@ == spec_u(*hash, a_pub@, b_pub@),
        r@.len() == hash.spec_output_len(),
{
    let buf = concat_bytes(a_pub, b_pub);
    hash.digest(buf.as_slice())
}

/// The multiplier `k` as a digest: `H(N || pad(g))`, to be read as an
/// integer.
pub fn compute_k<H: HashAlg>(hash: &H, params: &SrpGroup) -> (r: Vec<u8>)
    requires
        params.g@.len() <= params.n@.len(),
    ensures
        r@ == spec_k(*hash, params.n@, params.g@),
        r@.len() == hash.spec_output_len(),
{
    let padded_g = left_pad(params.g.as_slice(), params.n.len());
    let buf = concat_bytes(params.n.as_slice(), padded_g.as_slice());
    hash.digest(buf.as_slice())
}

/// The client proof `M1`.
pub fn compute_m1<H: HashAlg>(
    hash: &H,
    a_pub: &[u8],
    b_pub: &[u8],
    key: &[u8],
    username: &[u8],
    salt: &[u8],
    params: &SrpGroup,
) -> (r: Vec<u8>)
    requires
        params.g@.len() <= params.n@.len(),
    ensures
        r@ == spec_m1(*hash, a_pub@, b_pub@, key@, username@, salt@, params.n@, params.g@),
        r@.len() == hash.spec_output_len(),
{
    let padded_g = left_pad(params.g.as_slice(), params.n.len());
    let g_hash = hash.digest(padded_g.as_slice());
    let n_hash = hash.digest(params.n.as_slice());
    let mixer = xor_bytes(g_hash.as_slice(), n_hash.as_slice());
    let user_hash = hash.digest(username);
    let mut buf = push_all(Vec::new(), mixer.as_slice());
    buf = push_all(buf, user_hash.as_slice());
    buf = push_all(buf, salt);
    buf = push_all(buf, a_pub);
    buf = push_all(buf, b_pub);
    buf = push_all(buf, key);
    assert(buf@ =~= mixer@ + user_hash@ + salt@ + a_pub@ + b_pub@ + key@);
    hash.digest(buf.as_slice())
}

/// The expected server proof `M2`: `H(A || M1 || K)`.
pub fn compute_m2<H: HashAlg>(hash: &H, a_pub: &[u8], m1: &[u8], key: &[u8]) -> (r: Vec<u8>)
    ensures
        r@ == spec_m2(*hash, a_pub@, m1@, key@),
        r@.len() == hash.spec_output_len(),
{
    let mut buf = push_all(Vec::new(), a_pub);
    buf = push_all(buf, m1);
    buf = push_all(buf, key);
    assert(buf@ =~= a_pub@ + m1@ + key@);
    hash.digest(buf.as_slice())
}

} // verus!
