//! Protocol-level properties, proved once and for all.

use vstd::prelude::*;

use crate::arith::pow_mod;
use crate::bytes::be_of_nat;
use crate::bytes::lemma_be_roundtrip;
use crate::bytes::nat_of_be;
use crate::client::spec_premaster;
use crate::client::spec_reply;
use crate::derive::spec_identity_hash;
use crate::derive::spec_k;
use crate::derive::spec_u;
use crate::derive::spec_x;
use crate::hash::HashAlg;
use vstd::arithmetic::div_mod::lemma_add_mod_noop;
use vstd::arithmetic::div_mod::lemma_mod_bound;
use vstd::arithmetic::div_mod::lemma_mod_multiples_vanish;
use vstd::arithmetic::div_mod::lemma_mul_mod_noop;
use vstd::arithmetic::div_mod::lemma_small_mod;
use vstd::arithmetic::power::lemma_pow_adds;
use vstd::arithmetic::power::lemma_pow_mod_noop;
use vstd::arithmetic::power::lemma_pow_multiplies;
use vstd::arithmetic::power::pow;

verus! {

/// Key agreement. A server that stores the verifier `v = g^x mod N`, picks
/// an ephemeral `b` and publishes `B = (k*v + (g^b mod N)) mod N` computes
/// its premaster secret as `(A * (v^u mod N) mod N)^b mod N` from the
/// client's public `A = g^a mod N`. For every group with positive modulus,
/// every exponent `x`, every pair of ephemerals `a`, `b` and every
/// scrambler `u` and multiplier `k`, that server value equals the client's
/// `spec_premaster(N, g, B, k, x, a, u)`: both sides of the exchange derive
/// the same secret.
pub proof fn lemma_key_agreement(n: nat, g: nat, x: nat, a: nat, b: nat, u: nat, k: nat)
    requires
        n > 0,
    ensures
        ({
            let v = pow_mod(g, x, n);
            let a_pub = pow_mod(g, a, n);
            let b_pub = ((k * v + pow_mod(g, b, n)) % n) as nat;
            let server = pow_mod(((a_pub * pow_mod(v, u, n)) % n) as nat, b, n);
            spec_premaster(n, g, b_pub, k, x, a, u) == server
        }),
{
    let ni = n as int;
    let gi = g as int;
    let v = pow_mod(g, x, n);
    let a_pub = pow_mod(g, a, n);
    let gb = pow_mod(g, b, n);
    let b_pub = ((k * v + gb) % n) as nat;
    let kprime = ((k * v) % n) as nat;
    let e = u * x + a;

    lemma_mod_bound(pow(gi, b), ni);
    lemma_mod_bound((k * v) as int, ni);
    assert(0 <= gb < n);
    assert(0 <= kprime < n);

    // The published value reduces to (kprime + gb) mod n.
    lemma_add_mod_noop((k * v) as int, gb as int, ni);
    lemma_small_mod(gb, n);
    assert(b_pub == ((kprime + gb) % n) as nat);

    // Unwinding the guarded subtraction: the difference the client
    // exponentiates is exactly gb.
    let diff = ((n + b_pub - kprime) % ni) as nat;
    if kprime + gb < n {
        lemma_small_mod((kprime + gb) as nat, n);
        assert(b_pub == kprime + gb);
        assert(n + b_pub - kprime == ni + gb);
        lemma_mod_multiples_vanish(1, gb as int, ni);
        lemma_small_mod(gb, n);
        assert(diff == gb);
    } else {
        lemma_mod_multiples_vanish(1, (kprime + gb - n) as int, ni);
        lemma_small_mod((kprime + gb - n) as nat, n);
        assert(b_pub == kprime + gb - n);
        assert(n + b_pub - kprime == gb as int);
        lemma_small_mod(gb, n);
        assert(diff == gb);
    }

    // Client side: pow_mod(gb, e, n) == g^(b*e) mod n.
    lemma_pow_mod_noop(pow(gi, b), e, ni);
    lemma_pow_multiplies(gi, b, e);
    assert(spec_premaster(n, g, b_pub, k, x, a, u) == pow_mod(gb, e, n));
    assert(pow_mod(gb, e, n) == (pow(gi, b * e) % ni) as nat);

    // Server side: (a_pub * (v^u mod n)) mod n == g^(a + x*u) mod n.
    lemma_pow_mod_noop(pow(gi, x), u, ni);
    lemma_pow_multiplies(gi, x, u);
    assert(pow_mod(v, u, n) == (pow(gi, (x * u) as nat) % ni) as nat);
    lemma_mul_mod_noop(pow(gi, a), pow(gi, (x * u) as nat), ni);
    lemma_pow_adds(gi, a, (x * u) as nat);
    let inner = ((a_pub * pow_mod(v, u, n)) % n) as nat;
    lemma_mod_bound(pow(gi, (a + x * u) as nat), ni);
    assert(inner == (pow(gi, (a + x * u) as nat) % ni) as nat);

    // So the server raises g^(a + x*u) mod n to the b-th power.
    lemma_pow_mod_noop(pow(gi, (a + x * u) as nat), b, ni);
    lemma_pow_multiplies(gi, (a + x * u) as nat, b);
    assert(pow_mod(inner, b, n) == (pow(gi, ((a + x * u) * b) as nat) % ni) as nat);

    // And the exponents agree.
    assert((a + x * u) * b == b * (u * x + a)) by (nonlinear_arith);
    assert(((a + x * u) * b) as nat == (b * e) as nat);
}

/// End-to-end session-key agreement, at the level of the engine's actual
/// outputs. A server that stores the verifier `v = g^x mod N` for the
/// exponent the client will derive (the empty-username variant of this
/// engine), picks an ephemeral `b`, publishes
/// `B = (k*v + (g^b mod N)) mod N` using the protocol's multiplier `k`,
/// derives the scrambler from the same public encodings, and computes
/// `K = H(S_server)` with `S_server = (A * (v^u mod N) mod N)^b mod N`,
/// arrives at exactly the session key that `process_reply` returns for
/// that `B`.
pub proof fn lemma_session_key_agreement<H: HashAlg>(
    h: H,
    n: Seq<u8>,
    g: Seq<u8>,
    a: Seq<u8>,
    username: Seq<u8>,
    password: Seq<u8>,
    salt: Seq<u8>,
    b: nat,
)
    requires
        nat_of_be(n) > 0,
    ensures
        ({
            let nv = nat_of_be(n);
            let gv = nat_of_be(g);
            let x = nat_of_be(spec_x(h, spec_identity_hash(h, Seq::empty(), password), salt));
            let v = pow_mod(gv, x, nv);
            let k = nat_of_be(spec_k(h, n, g));
            let b_pub = be_of_nat(((k * v + pow_mod(gv, b, nv)) % nv) as nat);
            let a_pub = be_of_nat(pow_mod(gv, nat_of_be(a), nv));
            let u = nat_of_be(spec_u(h, a_pub, b_pub));
            let s_server = pow_mod(
                ((pow_mod(gv, nat_of_be(a), nv) * pow_mod(v, u, nv)) % nv) as nat,
                b,
                nv,
            );
            spec_reply(h, n, g, a, username, password, salt, b_pub).0 == h.spec_digest(
                be_of_nat(s_server),
            )
        }),
{
    let nv = nat_of_be(n);
    let gv = nat_of_be(g);
    let x = nat_of_be(spec_x(h, spec_identity_hash(h, Seq::empty(), password), salt));
    let v = pow_mod(gv, x, nv);
    let k = nat_of_be(spec_k(h, n, g));
    let b_val = ((k * v + pow_mod(gv, b, nv)) % nv) as nat;
    let b_pub = be_of_nat(b_val);
    let a_pub = be_of_nat(pow_mod(gv, nat_of_be(a), nv));
    let u = nat_of_be(spec_u(h, a_pub, b_pub));

    // The published encoding is canonical, so the client reads back the
    // server's value and hashes the same bytes into the scrambler.
    lemma_be_roundtrip(b_val);
    assert(be_of_nat(nat_of_be(b_pub)) == b_pub);

    // The premaster secrets agree.
    lemma_key_agreement(nv, gv, x, nat_of_be(a), b, u, k);
}

/// The multiplier derivation is deterministic: `spec_k` is a function of
/// the group bytes and the hash alone, so any two derivations over the same
/// group and hash algorithm yield identical output.
pub proof fn lemma_k_deterministic<H: HashAlg>(
    h: H,
    n: Seq<u8>,
    g: Seq<u8>,
    r1: Seq<u8>,
    r2: Seq<u8>,
)
    requires
        r1 == spec_k(h, n, g),
        r2 == spec_k(h, n, g),
    ensures
        r1 == r2,
{
}

} // verus!
