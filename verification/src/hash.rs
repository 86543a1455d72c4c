//! The hash-algorithm abstraction the protocol is parameterized by.

use vstd::prelude::*;

verus! {

/// A cryptographic hash with a fixed output size.
///
/// The engine never picks an algorithm itself: callers implement this trait
/// for the digest of their choice, and both sides of an exchange must use
/// the same one. `spec_digest` is the implementation's digest viewed as a
/// mathematical function of the input bytes; every derivation contract in
/// this crate is stated over it. Implementations live outside the verified
/// library and are not themselves checked: what is proved of the protocol
/// holds for whatever fixed-output-size function the implementation
/// computes.
pub trait HashAlg: Sized {
    /// The digest as a function of the input bytes.
    spec fn spec_digest(&self, data: Seq<u8>) -> Seq<u8>;

    /// The fixed output size in bytes.
    spec fn spec_output_len(&self) -> nat;

    /// Hashes `data`.
    fn digest(&self, data: &[u8]) -> (r: Vec<u8>)
        ensures
            r@ == self.spec_digest(data@),
            r@.len() == self.spec_output_len(),
    ;
}

} // verus!
