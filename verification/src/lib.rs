//! Client side of the SRP-6a password-authenticated key exchange.
//!
//! The protocol engine turns (username, password, salt, ephemeral secrets)
//! into a registration verifier, a session key and a pair of mutual proofs,
//! without ever transmitting the password. Big-integer arithmetic and the
//! cryptographic hash are supplied from outside: arithmetic through trusted
//! wrappers over an arbitrary-precision library, the hash through the
//! [`hash::HashAlg`] trait that callers implement for their digest of choice.

pub mod arith;
pub mod bytes;
pub mod client;
pub mod derive;
pub mod group;
pub mod hash;
pub mod laws;

pub use bytes::be_of_nat;
pub use bytes::nat_of_be;
pub use client::SrpAuthError;
pub use client::SrpClient;
pub use client::SrpClientVerifier;
pub use derive::compute_k;
pub use derive::compute_m1;
pub use derive::compute_m2;
pub use derive::compute_u;
pub use group::g_2048;
pub use group::SrpGroup;
pub use hash::HashAlg;
