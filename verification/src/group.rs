//! Group parameters: the (modulus, generator) pair an exchange runs in.

use vstd::prelude::*;

use crate::arith::canonical_be;
use crate::bytes::be_of_nat;
use crate::bytes::lemma_be_roundtrip;
use crate::bytes::lemma_minimal_roundtrip;
use crate::bytes::lemma_nat_of_be_pos;
use crate::bytes::nat_of_be;

verus! {

/// An SRP group: a large prime modulus `n` and a generator `g`, both as
/// big-endian byte strings. The pair is agreed out of band and immutable
/// once built; whether `n` is prime and `g` a primitive root is the
/// choosing caller's responsibility and not checked here.
pub struct SrpGroup {
    pub n: Vec<u8>,
    pub g: Vec<u8>,
}

impl SrpGroup {
    /// The modulus as an integer.
    pub open spec fn n_val(&self) -> nat {
        nat_of_be(self.n@)
    }

    /// The generator as an integer.
    pub open spec fn g_val(&self) -> nat {
        nat_of_be(self.g@)
    }

    /// Well-formedness: both byte strings are canonical encodings (as the
    /// big-integer library prints them), the modulus is positive, and the
    /// generator's encoding is no wider than the modulus's, so that the
    /// protocol can left-pad `g` to the width of `n` when hashing.
    pub open spec fn wf(&self) -> bool {
        &&& self.n@ == be_of_nat(self.n_val())
        &&& self.g@ == be_of_nat(self.g_val())
        &&& self.n_val() > 0
        &&& self.g@.len() <= self.n@.len()
    }

    /// Builds a well-formed group from raw big-endian modulus and generator
    /// bytes, normalizing both encodings. Returns `None` exactly when the
    /// modulus is zero or the generator's canonical encoding is wider than
    /// the modulus's (the protocol left-pads `g` to the width of `N`, so
    /// such a pair cannot be used).
    pub fn from_bytes_be(n: &[u8], g: &[u8]) -> (r: Option<SrpGroup>)
        ensures
            match r {
                Some(group) => {
                    &&& group.wf()
                    &&& group.n_val() == nat_of_be(n@)
                    &&& group.g_val() == nat_of_be(g@)
                },
                None => nat_of_be(n@) == 0 || be_of_nat(nat_of_be(g@)).len() > be_of_nat(
                    nat_of_be(n@),
                ).len(),
            },
    {
        let cn = canonical_be(n);
        let cg = canonical_be(g);
        proof {
            lemma_be_roundtrip(nat_of_be(n@));
            lemma_be_roundtrip(nat_of_be(g@));
            assert(seq![0u8].drop_last() =~= Seq::<u8>::empty());
            assert(nat_of_be(Seq::<u8>::empty()) == 0);
            assert(nat_of_be(seq![0u8]) == 0);
        }
        let n_is_zero = cn.len() == 1 && cn[0] == 0;
        proof {
            if n_is_zero {
                assert(cn@ =~= seq![0u8]);
            }
            if nat_of_be(n@) == 0 {
                assert(cn@ =~= seq![0u8]);
            }
        }
        if !n_is_zero && cg.len() <= cn.len() {
            Some(SrpGroup { n: cn, g: cg })
        } else {
            None
        }
    }
}

/// The modulus of the standard 2048-bit group of RFC 5054, appendix A,
/// as big-endian bytes.
pub open spec fn n_2048_bytes() -> Seq<u8> {
    seq![
        0xacu8, 0x6b, 0xdb, 0x41, 0x32, 0x4a, 0x9a, 0x9b,
        0xf1, 0x66, 0xde, 0x5e, 0x13, 0x89, 0x58, 0x2f,
        0xaf, 0x72, 0xb6, 0x65, 0x19, 0x87, 0xee, 0x07,
        0xfc, 0x31, 0x92, 0x94, 0x3d, 0xb5, 0x60, 0x50,
        0xa3, 0x73, 0x29, 0xcb, 0xb4, 0xa0, 0x99, 0xed,
        0x81, 0x93, 0xe0, 0x75, 0x77, 0x67, 0xa1, 0x3d,
        0xd5, 0x23, 0x12, 0xab, 0x4b, 0x03, 0x31, 0x0d,
        0xcd, 0x7f, 0x48, 0xa9, 0xda, 0x04, 0xfd, 0x50,
        0xe8, 0x08, 0x39, 0x69, 0xed, 0xb7, 0x67, 0xb0,
        0xcf, 0x60, 0x95, 0x17, 0x9a, 0x16, 0x3a, 0xb3,
        0x66, 0x1a, 0x05, 0xfb, 0xd5, 0xfa, 0xaa, 0xe8,
        0x29, 0x18, 0xa9, 0x96, 0x2f, 0x0b, 0x93, 0xb8,
        0x55, 0xf9, 0x79, 0x93, 0xec, 0x97, 0x5e, 0xea,
        0xa8, 0x0d, 0x74, 0x0a, 0xdb, 0xf4, 0xff, 0x74,
        0x73, 0x59, 0xd0, 0x41, 0xd5, 0xc3, 0x3e, 0xa7,
        0x1d, 0x28, 0x1e, 0x44, 0x6b, 0x14, 0x77, 0x3b,
        0xca, 0x97, 0xb4, 0x3a, 0x23, 0xfb, 0x80, 0x16,
        0x76, 0xbd, 0x20, 0x7a, 0x43, 0x6c, 0x64, 0x81,
        0xf1, 0xd2, 0xb9, 0x07, 0x87, 0x17, 0x46, 0x1a,
        0x5b, 0x9d, 0x32, 0xe6, 0x88, 0xf8, 0x77, 0x48,
        0x54, 0x45, 0x23, 0xb5, 0x24, 0xb0, 0xd5, 0x7d,
        0x5e, 0xa7, 0x7a, 0x27, 0x75, 0xd2, 0xec, 0xfa,
        0x03, 0x2c, 0xfb, 0xdb, 0xf5, 0x2f, 0xb3, 0x78,
        0x61, 0x60, 0x27, 0x90, 0x04, 0xe5, 0x7a, 0xe6,
        0xaf, 0x87, 0x4e, 0x73, 0x03, 0xce, 0x53, 0x29,
        0x9c, 0xcc, 0x04, 0x1c, 0x7b, 0xc3, 0x08, 0xd8,
        0x2a, 0x56, 0x98, 0xf3, 0xa8, 0xd0, 0xc3, 0x82,
        0x71, 0xae, 0x35, 0xf8, 0xe9, 0xdb, 0xfb, 0xb6,
        0x94, 0xb5, 0xc8, 0x03, 0xd8, 0x9f, 0x7a, 0xe4,
        0x35, 0xde, 0x23, 0x6d, 0x52, 0x5f, 0x54, 0x75,
        0x9b, 0x65, 0xe3, 0x72, 0xfc, 0xd6, 0x8e, 0xf2,
        0x0f, 0xa7, 0x11, 0x1f, 0x9e, 0x4a, 0xff, 0x73,
    ]
}

/// The standard 2048-bit group of RFC 5054, appendix A: a safe-prime
/// modulus with generator 2.
pub fn g_2048() -> (r: SrpGroup)
    ensures
        r.wf(),
        r.g@ == seq![2u8],
        r.n@ == n_2048_bytes(),
{
    let n: Vec<u8> = vec![
        0xac, 0x6b, 0xdb, 0x41, 0x32, 0x4a, 0x9a, 0x9b,
        0xf1, 0x66, 0xde, 0x5e, 0x13, 0x89, 0x58, 0x2f,
        0xaf, 0x72, 0xb6, 0x65, 0x19, 0x87, 0xee, 0x07,
        0xfc, 0x31, 0x92, 0x94, 0x3d, 0xb5, 0x60, 0x50,
        0xa3, 0x73, 0x29, 0xcb, 0xb4, 0xa0, 0x99, 0xed,
        0x81, 0x93, 0xe0, 0x75, 0x77, 0x67, 0xa1, 0x3d,
        0xd5, 0x23, 0x12, 0xab, 0x4b, 0x03, 0x31, 0x0d,
        0xcd, 0x7f, 0x48, 0xa9, 0xda, 0x04, 0xfd, 0x50,
        0xe8, 0x08, 0x39, 0x69, 0xed, 0xb7, 0x67, 0xb0,
        0xcf, 0x60, 0x95, 0x17, 0x9a, 0x16, 0x3a, 0xb3,
        0x66, 0x1a, 0x05, 0xfb, 0xd5, 0xfa, 0xaa, 0xe8,
        0x29, 0x18, 0xa9, 0x96, 0x2f, 0x0b, 0x93, 0xb8,
        0x55, 0xf9, 0x79, 0x93, 0xec, 0x97, 0x5e, 0xea,
        0xa8, 0x0d, 0x74, 0x0a, 0xdb, 0xf4, 0xff, 0x74,
        0x73, 0x59, 0xd0, 0x41, 0xd5, 0xc3, 0x3e, 0xa7,
        0x1d, 0x28, 0x1e, 0x44, 0x6b, 0x14, 0x77, 0x3b,
        0xca, 0x97, 0xb4, 0x3a, 0x23, 0xfb, 0x80, 0x16,
        0x76, 0xbd, 0x20, 0x7a, 0x43, 0x6c, 0x64, 0x81,
        0xf1, 0xd2, 0xb9, 0x07, 0x87, 0x17, 0x46, 0x1a,
        0x5b, 0x9d, 0x32, 0xe6, 0x88, 0xf8, 0x77, 0x48,
        0x54, 0x45, 0x23, 0xb5, 0x24, 0xb0, 0xd5, 0x7d,
        0x5e, 0xa7, 0x7a, 0x27, 0x75, 0xd2, 0xec, 0xfa,
        0x03, 0x2c, 0xfb, 0xdb, 0xf5, 0x2f, 0xb3, 0x78,
        0x61, 0x60, 0x27, 0x90, 0x04, 0xe5, 0x7a, 0xe6,
        0xaf, 0x87, 0x4e, 0x73, 0x03, 0xce, 0x53, 0x29,
        0x9c, 0xcc, 0x04, 0x1c, 0x7b, 0xc3, 0x08, 0xd8,
        0x2a, 0x56, 0x98, 0xf3, 0xa8, 0xd0, 0xc3, 0x82,
        0x71, 0xae, 0x35, 0xf8, 0xe9, 0xdb, 0xfb, 0xb6,
        0x94, 0xb5, 0xc8, 0x03, 0xd8, 0x9f, 0x7a, 0xe4,
        0x35, 0xde, 0x23, 0x6d, 0x52, 0x5f, 0x54, 0x75,
        0x9b, 0x65, 0xe3, 0x72, 0xfc, 0xd6, 0x8e, 0xf2,
        0x0f, 0xa7, 0x11, 0x1f, 0x9e, 0x4a, 0xff, 0x73,
    ];
    let mut g: Vec<u8> = Vec::new();
    g.push(2);
    proof {
        assert(g@ =~= seq![2u8]);
        assert(n@ =~= n_2048_bytes());
        assert(n@[0] == 0xac);
        lemma_nat_of_be_pos(n@);
        lemma_minimal_roundtrip(n@);
        lemma_minimal_roundtrip(g@);
    }
    SrpGroup { n, g }
}

} // verus!
