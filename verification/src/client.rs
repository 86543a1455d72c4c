//! The protocol engine and the proof holder it produces.

use vstd::prelude::*;

use crate::arith::add_be;
use crate::arith::canonical_be;
use crate::arith::modpow_be;
use crate::arith::mul_be;
use crate::arith::pow_mod;
use crate::arith::rem_be;
use crate::arith::sub_be;
use crate::bytes::be_of_nat;
use crate::bytes::lemma_be_roundtrip;
use crate::bytes::nat_of_be;
use crate::derive::compute_k;
use crate::derive::compute_m1;
use crate::derive::compute_m2;
use crate::derive::compute_u;
use crate::derive::spec_identity_hash;
use crate::derive::spec_k;
use crate::derive::spec_m1;
use crate::derive::spec_m2;
use crate::derive::spec_u;
use crate::derive::spec_x;
use crate::group::SrpGroup;
use crate::hash::HashAlg;

verus! {

/// The two ways an authentication attempt fails, both terminal for the
/// attempt: a degenerate peer-supplied value (carrying the field's name),
/// or a peer proof that does not match the local expectation (carrying the
/// peer's name).
#[derive(Debug)]
pub enum SrpAuthError {
    IllegalParameter(&'static str),
    BadRecordMac(&'static str),
}

/// The client-side premaster secret:
/// `((N + B - (k * g^x mod N)) mod N) ^ (u*x + a) mod N`.
///
/// `N` is added before subtracting so that the difference never goes below
/// zero under unsigned arithmetic.
pub open spec fn spec_premaster(n: nat, g: nat, b_pub: nat, k: nat, x: nat, a: nat, u: nat) -> nat
    recommends
        n > 0,
{
    let base = (k * pow_mod(g, x, n)) % n;
    let diff = ((n + b_pub - base) % (n as int)) as nat;
    pow_mod(diff, u * x + a, n)
}

/// Everything `process_reply` derives on success, as a function of its
/// inputs: the session key `K`, the client proof `M1` and the expected
/// server proof `M2`, in that order.
///
/// Note the protocol variant implemented here: the identity hash feeding
/// the exponent `x` is computed with an *empty* username, while `M1` (and
/// registration through `compute_verifier`) uses the real one. A server
/// must derive its stored verifier the same way or the keys cannot agree.
pub open spec fn spec_reply<H: HashAlg>(
    h: H,
    n: Seq<u8>,
    g: Seq<u8>,
    a: Seq<u8>,
    username: Seq<u8>,
    password: Seq<u8>,
    salt: Seq<u8>,
    b_pub: Seq<u8>,
) -> (Seq<u8>, Seq<u8>, Seq<u8>) {
    let a_pub = be_of_nat(pow_mod(nat_of_be(g), nat_of_be(a), nat_of_be(n)));
    let b_can = be_of_nat(nat_of_be(b_pub));
    let u = nat_of_be(spec_u(h, a_pub, b_can));
    let k = nat_of_be(spec_k(h, n, g));
    let x = nat_of_be(spec_x(h, spec_identity_hash(h, Seq::empty(), password), salt));
    let s = spec_premaster(nat_of_be(n), nat_of_be(g), nat_of_be(b_pub), k, x, nat_of_be(a), u);
    let key = h.spec_digest(be_of_nat(s));
    let m1 = spec_m1(h, a_pub, b_can, key, username, salt, n, g);
    let m2 = spec_m2(h, a_pub, m1, key);
    (key, m1, m2)
}

/// The protocol engine: a borrowed group and a chosen hash algorithm,
/// fixed at construction. It holds no secret material; every operation is
/// a pure function of its explicit arguments.
pub struct SrpClient<'a, H: HashAlg> {
    params: &'a SrpGroup,
    hash: H,
}

/// The result of a successful reply: the session key and the two proofs,
/// immutable once built.
pub struct SrpClientVerifier {
    m1: Vec<u8>,
    m2: Vec<u8>,
    key: Vec<u8>,
}

/// Relies on subtle's `ConstantTimeEq` for byte slices: equality of the two
/// strings, decided in time independent of their contents (only differing
/// lengths short-circuit).
#[verifier::external_body]
fn ct_eq_bytes(a: &[u8], b: &[u8]) -> (r: bool)
    ensures
        r <==> a@ == b@,
{
    subtle::ConstantTimeEq::ct_eq(a, b).unwrap_u8() == 1
}

impl<'a, H: HashAlg> SrpClient<'a, H> {
    /// The group the engine was built over.
    pub closed spec fn spec_params(&self) -> SrpGroup {
        *self.params
    }

    /// The hash algorithm the engine was built over.
    pub closed spec fn spec_hash(&self) -> H {
        self.hash
    }

    /// The engine is usable when its group is well formed.
    pub open spec fn wf(&self) -> bool {
        self.spec_params().wf()
    }

    /// Builds an engine over `params`, hashing with `hash`.
    pub fn new(params: &'a SrpGroup, hash: H) -> (r: Self)
        ensures
            r.spec_params() == *params,
            r.spec_hash() == hash,
    {
        Self { params, hash }
    }

    /// The public ephemeral `A = g^a mod N` for a private ephemeral `a`.
    pub fn compute_a_pub(&self, a: &[u8]) -> (r: Vec<u8>)
        requires
            self.wf(),
        ensures
            r@ == be_of_nat(
                pow_mod(self.spec_params().g_val(), nat_of_be(a@), self.spec_params().n_val()),
            ),
    {
        modpow_be(self.params.g.as_slice(), a, self.params.n.as_slice())
    }

    /// `H(username || ":" || password)`.
    pub fn compute_identity_hash(&self, username: &[u8], password: &[u8]) -> (r: Vec<u8>)
        ensures
            r@ == spec_identity_hash(self.spec_hash(), username@, password@),
    {
        let mut buf = crate::bytes::push_all(Vec::new(), username);
        buf.push(58);  // the ASCII colon
        let buf = crate::bytes::push_all(buf, password);
        assert(buf@ =~= username@ + seq![58u8] + password@);
        self.hash.digest(buf.as_slice())
    }

    /// The private exponent digest `x = H(salt || identity_hash)`, to be
    /// read as an integer.
    pub fn compute_x(&self, identity_hash: &[u8], salt: &[u8]) -> (r: Vec<u8>)
        ensures
            r@ == spec_x(self.spec_hash(), identity_hash@, salt@),
    {
        let buf = crate::bytes::concat_bytes(salt, identity_hash);
        self.hash.digest(buf.as_slice())
    }

    /// The premaster secret `S`, canonically encoded; all five arguments
    /// are big-endian integers.
    pub fn compute_premaster_secret(
        &self,
        b_pub: &[u8],
        k: &[u8],
        x: &[u8],
        a: &[u8],
        u: &[u8],
    ) -> (r: Vec<u8>)
        requires
            self.wf(),
        ensures
            r@ == be_of_nat(
                spec_premaster(
                    self.spec_params().n_val(),
                    self.spec_params().g_val(),
                    nat_of_be(b_pub@),
                    nat_of_be(k@),
                    nat_of_be(x@),
                    nat_of_be(a@),
                    nat_of_be(u@),
                ),
            ),
    {
        let ghost nv = self.spec_params().n_val();
        let ghost gv = self.spec_params().g_val();
        let n = self.params.n.as_slice();

        let gx = modpow_be(self.params.g.as_slice(), x, n);
        proof {
            lemma_be_roundtrip(pow_mod(gv, nat_of_be(x@), nv));
        }
        let kgx = mul_be(k, gx.as_slice());
        proof {
            lemma_be_roundtrip(nat_of_be(k@) * pow_mod(gv, nat_of_be(x@), nv));
        }
        let base = rem_be(kgx.as_slice(), n);
        let ghost base_v = (nat_of_be(k@) * pow_mod(gv, nat_of_be(x@), nv)) % nv;
        proof {
            lemma_be_roundtrip(base_v);
            vstd::arithmetic::div_mod::lemma_mod_bound(
                (nat_of_be(k@) * pow_mod(gv, nat_of_be(x@), nv)) as int,
                nv as int,
            );
        }
        let nb = add_be(n, b_pub);
        proof {
            lemma_be_roundtrip((nv + nat_of_be(b_pub@)) as nat);
        }
        let diff0 = sub_be(nb.as_slice(), base.as_slice());
        let ghost diff0_v = (nv + nat_of_be(b_pub@) - base_v) as nat;
        proof {
            lemma_be_roundtrip(diff0_v);
        }
        let diff = rem_be(diff0.as_slice(), n);
        proof {
            lemma_be_roundtrip(diff0_v % nv);
        }
        let ux = mul_be(u, x);
        proof {
            lemma_be_roundtrip(nat_of_be(u@) * nat_of_be(x@));
        }
        let e = add_be(ux.as_slice(), a);
        proof {
            lemma_be_roundtrip((nat_of_be(u@) * nat_of_be(x@) + nat_of_be(a@)) as nat);
        }
        modpow_be(diff.as_slice(), e.as_slice(), n)
    }

    /// The verifier value `v = g^x mod N`, canonically encoded.
    pub fn compute_v(&self, x: &[u8]) -> (r: Vec<u8>)
        requires
            self.wf(),
        ensures
            r@ == be_of_nat(
                pow_mod(self.spec_params().g_val(), nat_of_be(x@), self.spec_params().n_val()),
            ),
    {
        modpow_be(self.params.g.as_slice(), x, self.params.n.as_slice())
    }

    /// The registration verifier for (username, password, salt): `g^x mod N`
    /// with `x` derived from the *real* username, canonically encoded. Meant
    /// for server-side storage at registration time.
    pub fn compute_verifier(&self, username: &[u8], password: &[u8], salt: &[u8]) -> (r: Vec<u8>)
        requires
            self.wf(),
        ensures
            r@ == be_of_nat(
                pow_mod(
                    self.spec_params().g_val(),
                    nat_of_be(
                        spec_x(
                            self.spec_hash(),
                            spec_identity_hash(self.spec_hash(), username@, password@),
                            salt@,
                        ),
                    ),
                    self.spec_params().n_val(),
                ),
            ),
    {
        let identity_hash = self.compute_identity_hash(username, password);
        let x = self.compute_x(identity_hash.as_slice(), salt);
        self.compute_v(x.as_slice())
    }

    /// The public ephemeral `A` for a private ephemeral given as bytes,
    /// canonically encoded.
    pub fn compute_public_ephemeral(&self, a: &[u8]) -> (r: Vec<u8>)
        requires
            self.wf(),
        ensures
            r@ == be_of_nat(
                pow_mod(self.spec_params().g_val(), nat_of_be(a@), self.spec_params().n_val()),
            ),
    {
        self.compute_a_pub(a)
    }

    /// The main handshake step: from the private ephemeral, the credentials
    /// and the server's salt and public value `B` to the session key and
    /// both proofs. Rejects `B ≡ 0 (mod N)` — a degenerate value that would
    /// force a predictable premaster secret — before deriving anything.
    ///
    /// Mind the protocol variant (see [`spec_reply`]): the exponent `x` is
    /// derived from an *empty* username, while `M1` hashes the real one; a
    /// server must hold a verifier registered the same way (an empty
    /// username fed to [`Self::compute_verifier`]) for the keys to agree.
    pub fn process_reply(
        &self,
        a: &[u8],
        username: &[u8],
        password: &[u8],
        salt: &[u8],
        b_pub: &[u8],
    ) -> (r: Result<SrpClientVerifier, SrpAuthError>)
        requires
            self.wf(),
        ensures
            r is Err <==> nat_of_be(b_pub@) % self.spec_params().n_val() == 0,
            r is Err ==> r == Err::<SrpClientVerifier, SrpAuthError>(
                SrpAuthError::IllegalParameter("b_pub"),
            ),
            r matches Ok(v) ==> ({
                let (key, m1, m2) = spec_reply(
                    self.spec_hash(),
                    self.spec_params().n@,
                    self.spec_params().g@,
                    a@,
                    username@,
                    password@,
                    salt@,
                    b_pub@,
                );
                v.spec_key() == key && v.spec_m1() == m1 && v.spec_m2() == m2
            }),
    {
        let a_pub = self.compute_a_pub(a);
        let b_can = canonical_be(b_pub);
        let rem = rem_be(b_pub, self.params.n.as_slice());
        proof {
            lemma_be_roundtrip(nat_of_be(b_pub@) % self.spec_params().n_val());
        }
        if rem.len() == 1 && rem[0] == 0 {
            proof {
                assert(rem@ =~= seq![0u8]);
                assert(seq![0u8].drop_last() =~= Seq::<u8>::empty());
                assert(nat_of_be(Seq::<u8>::empty()) == 0);
                assert(nat_of_be(seq![0u8]) == 0);
            }
            return Err(SrpAuthError::IllegalParameter("b_pub"));
        }
        proof {
            if nat_of_be(b_pub@) % self.spec_params().n_val() == 0 {
                assert(rem@ =~= seq![0u8]);
            }
        }

        let u = compute_u(&self.hash, a_pub.as_slice(), b_can.as_slice());
        let k = compute_k(&self.hash, self.params);
        let identity_hash = self.compute_identity_hash(&[], password);
        let x = self.compute_x(identity_hash.as_slice(), salt);

        let s = self.compute_premaster_secret(
            b_can.as_slice(),
            k.as_slice(),
            x.as_slice(),
            a,
            u.as_slice(),
        );
        let key = self.hash.digest(s.as_slice());

        let m1 = compute_m1(
            &self.hash,
            a_pub.as_slice(),
            b_can.as_slice(),
            key.as_slice(),
            username,
            salt,
            self.params,
        );
        let m2 = compute_m2(&self.hash, a_pub.as_slice(), m1.as_slice(), key.as_slice());

        proof {
            lemma_be_roundtrip(nat_of_be(b_pub@));
        }
        Ok(SrpClientVerifier { m1, m2, key })
    }
}

impl SrpClientVerifier {
    /// The session key `K`.
    pub closed spec fn spec_key(&self) -> Seq<u8> {
        self.key@
    }

    /// The client proof `M1`.
    pub closed spec fn spec_m1(&self) -> Seq<u8> {
        self.m1@
    }

    /// The expected server proof `M2`.
    pub closed spec fn spec_m2(&self) -> Seq<u8> {
        self.m2@
    }

    /// The session key, the shared secret both sides now hold.
    pub fn key(&self) -> (r: &[u8])
        ensures
            r@ == self.spec_key(),
    {
        self.key.as_slice()
    }

    /// The client proof `M1`, to be sent to the server.
    pub fn client_proof(&self) -> (r: &[u8])
        ensures
            r@ == self.spec_m1(),
    {
        self.m1.as_slice()
    }

    /// The final authentication decision: succeeds exactly when the peer's
    /// bytes equal the expected `M2`, compared in constant time.
    pub fn verify_server(&self, reply: &[u8]) -> (r: Result<(), SrpAuthError>)
        ensures
            r is Ok <==> reply@ == self.spec_m2(),
            r is Err ==> r == Err::<(), SrpAuthError>(SrpAuthError::BadRecordMac("server")),
    {
        if ct_eq_bytes(self.m2.as_slice(), reply) {
            Ok(())
        } else {
            Err(SrpAuthError::BadRecordMac("server"))
        }
    }
}

} // verus!
