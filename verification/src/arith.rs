//! Trusted wrappers over the arbitrary-precision integer library.
//!
//! The protocol never inspects a big integer directly: every value crosses
//! these functions as a big-endian byte string, and each contract states the
//! result as the canonical encoding of the mathematical operation on the
//! decoded inputs. The operations that panic inside the library (zero
//! modulus, subtraction below zero) are ruled out by preconditions.

use vstd::prelude::*;

use crate::bytes::be_of_nat;
use crate::bytes::nat_of_be;
use num_bigint::BigUint;

verus! {

/// `base^exp mod m`, as a mathematical function.
pub open spec fn pow_mod(base: nat, exp: nat, m: nat) -> nat
    recommends
        m > 0,
{
    (vstd::arithmetic::power::pow(base as int, exp) % (m as int)) as nat
}

/// Relies on `num_bigint::BigUint::modpow` (with the library's big-endian
/// conversions): returns `base^exp mod modulus`, canonically encoded. The
/// library panics only on a zero modulus, which the precondition excludes.
#[verifier::external_body]
pub(crate) fn modpow_be(base: &[u8], exp: &[u8], modulus: &[u8]) -> (r: Vec<u8>)
    requires
        nat_of_be(modulus@) > 0,
    ensures
        r@ == be_of_nat(pow_mod(nat_of_be(base@), nat_of_be(exp@), nat_of_be(modulus@))),
{
    let b = BigUint::from_bytes_be(base);
    let e = BigUint::from_bytes_be(exp);
    let m = BigUint::from_bytes_be(modulus);
    b.modpow(&e, &m).to_bytes_be()
}

/// Relies on `num_bigint`'s remainder operator: returns `x mod m`,
/// canonically encoded. The library panics on division by zero, which the
/// precondition excludes.
#[verifier::external_body]
pub(crate) fn rem_be(x: &[u8], m: &[u8]) -> (r: Vec<u8>)
    requires
        nat_of_be(m@) > 0,
    ensures
        r@ == be_of_nat(nat_of_be(x@) % nat_of_be(m@)),
{
    (BigUint::from_bytes_be(x) % BigUint::from_bytes_be(m)).to_bytes_be()
}

/// Relies on `num_bigint`'s multiplication: returns `x * y`, canonically
/// encoded.
#[verifier::external_body]
pub(crate) fn mul_be(x: &[u8], y: &[u8]) -> (r: Vec<u8>)
    ensures
        r@ == be_of_nat(nat_of_be(x@) * nat_of_be(y@)),
{
    (BigUint::from_bytes_be(x) * BigUint::from_bytes_be(y)).to_bytes_be()
}

/// Relies on `num_bigint`'s addition: returns `x + y`, canonically encoded.
#[verifier::external_body]
pub(crate) fn add_be(x: &[u8], y: &[u8]) -> (r: Vec<u8>)
    ensures
        r@ == be_of_nat(nat_of_be(x@) + nat_of_be(y@)),
{
    (BigUint::from_bytes_be(x) + BigUint::from_bytes_be(y)).to_bytes_be()
}

/// Relies on `num_bigint`'s subtraction: returns `x - y`, canonically
/// encoded. The library panics when `y` exceeds `x`, which the precondition
/// excludes.
#[verifier::external_body]
pub(crate) fn sub_be(x: &[u8], y: &[u8]) -> (r: Vec<u8>)
    requires
        nat_of_be(y@) <= nat_of_be(x@),
    ensures
        r@ == be_of_nat((nat_of_be(x@) - nat_of_be(y@)) as nat),
{
    (BigUint::from_bytes_be(x) - BigUint::from_bytes_be(y)).to_bytes_be()
}

/// Relies on `num_bigint`'s byte conversions: re-encodes a big-endian byte
/// string canonically (dropping superfluous leading zero bytes; zero becomes
/// the single byte `0`).
#[verifier::external_body]
pub(crate) fn canonical_be(x: &[u8]) -> (r: Vec<u8>)
    ensures
        r@ == be_of_nat(nat_of_be(x@)),
{
    BigUint::from_bytes_be(x).to_bytes_be()
}

} // verus!
