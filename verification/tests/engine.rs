//! Exercises the protocol engine end to end against an independent
//! reference server built directly on the big-integer and hash crates.

use num_bigint::BigUint;
use sha2::Digest;
use srp_client::g_2048;
use srp_client::HashAlg;
use srp_client::SrpAuthError;
use srp_client::SrpClient;
use srp_client::SrpGroup;

struct Sha256Alg;

impl HashAlg for Sha256Alg {
    // The two spec items exist only for the verifier; they are never run.
    fn spec_digest(&self, _data: vstd::seq::Seq<u8>) -> vstd::seq::Seq<u8> {
        unreachable!()
    }

    fn spec_output_len(&self) -> vstd::prelude::nat {
        unreachable!()
    }

    fn digest(&self, data: &[u8]) -> Vec<u8> {
        sha2::Sha256::digest(data).to_vec()
    }
}

fn h(parts: &[&[u8]]) -> Vec<u8> {
    let mut d = sha2::Sha256::new();
    for p in parts {
        d.update(p);
    }
    d.finalize().to_vec()
}

fn pad_to(b: &[u8], width: usize) -> Vec<u8> {
    let mut out = vec![0u8; width - b.len()];
    out.extend_from_slice(b);
    out
}

/// The multiplier k = H(N || pad(g)), computed independently of the crate.
fn reference_k(group: &SrpGroup) -> Vec<u8> {
    h(&[&group.n, &pad_to(&group.g, group.n.len())])
}

/// The server's public value B = (k*v + g^b) mod N.
fn reference_b_pub(group: &SrpGroup, v: &[u8], b: &[u8]) -> Vec<u8> {
    let n = BigUint::from_bytes_be(&group.n);
    let g = BigUint::from_bytes_be(&group.g);
    let v = BigUint::from_bytes_be(v);
    let b = BigUint::from_bytes_be(b);
    let k = BigUint::from_bytes_be(&reference_k(group));
    ((k * v + g.modpow(&b, &n)) % &n).to_bytes_be()
}

/// The server's session key: K = H(S) with S = (A * v^u)^b mod N.
fn reference_session_key(group: &SrpGroup, a_pub: &[u8], b_pub: &[u8], v: &[u8], b: &[u8]) -> Vec<u8> {
    let n = BigUint::from_bytes_be(&group.n);
    let v = BigUint::from_bytes_be(v);
    let b = BigUint::from_bytes_be(b);
    let u = BigUint::from_bytes_be(&h(&[a_pub, b_pub]));
    let base = (BigUint::from_bytes_be(a_pub) * v.modpow(&u, &n)) % &n;
    let s = base.modpow(&b, &n);
    h(&[&s.to_bytes_be()])
}

fn reference_m1(group: &SrpGroup, username: &[u8], salt: &[u8], a_pub: &[u8], b_pub: &[u8], key: &[u8]) -> Vec<u8> {
    let n_hash = h(&[&group.n]);
    let g_hash = h(&[&pad_to(&group.g, group.n.len())]);
    let mixer: Vec<u8> = g_hash.iter().zip(n_hash.iter()).map(|(x, y)| x ^ y).collect();
    h(&[&mixer, &h(&[username]), salt, a_pub, b_pub, key])
}

#[test]
fn end_to_end_key_agreement() {
    let group = g_2048();
    let client = SrpClient::new(&group, Sha256Alg);
    // The engine derives x from an empty username, so registration must use
    // an empty username too for the exchange to agree.
    let password = b"correct horse battery staple";
    let salt = b"\x01\x02\x03\x04\x05\x06\x07\x08\x09\x0a\x0b\x0c\x0d\x0e\x0f\x10";
    let a = b"this is the client ephemeral secret, as big-endian bytes...";
    let b = b"and this one belongs to the server; it never leaves it......";

    let verifier = client.compute_verifier(b"", password, salt);
    let a_pub = client.compute_public_ephemeral(a);
    let b_pub = reference_b_pub(&group, &verifier, b);

    let holder = client
        .process_reply(a, b"", password, salt, &b_pub)
        .unwrap_or_else(|_| panic!("process_reply rejected a valid B"));

    let server_key = reference_session_key(&group, &a_pub, &b_pub, &verifier, b);
    assert_eq!(holder.key(), &server_key[..]);

    let server_m1 = reference_m1(&group, b"", salt, &a_pub, &b_pub, &server_key);
    assert_eq!(holder.client_proof(), &server_m1[..]);

    let server_m2 = h(&[&a_pub, &server_m1, &server_key]);
    assert!(holder.verify_server(&server_m2).is_ok());
}

#[test]
fn wrong_password_yields_different_key_and_failing_proof() {
    let group = g_2048();
    let client = SrpClient::new(&group, Sha256Alg);
    let salt = b"0123456789abcdef";
    let a = b"client ephemeral secret bytes";
    let b = b"server ephemeral secret bytes";

    let verifier = client.compute_verifier(b"", b"right password", salt);
    let a_pub = client.compute_public_ephemeral(a);
    let b_pub = reference_b_pub(&group, &verifier, b);

    let holder = client
        .process_reply(a, b"", b"wrong password", salt, &b_pub)
        .unwrap_or_else(|_| panic!("process_reply rejected a valid B"));

    let server_key = reference_session_key(&group, &a_pub, &b_pub, &verifier, b);
    assert_ne!(holder.key(), &server_key[..]);

    let server_m1 = reference_m1(&group, b"", salt, &a_pub, &b_pub, &server_key);
    let server_m2 = h(&[&a_pub, &server_m1, &server_key]);
    let err = holder.verify_server(&server_m2);
    assert!(matches!(err, Err(SrpAuthError::BadRecordMac("server"))));
}

#[test]
fn degenerate_b_pub_is_rejected() {
    let group = g_2048();
    let client = SrpClient::new(&group, Sha256Alg);

    // B == N
    let r = client.process_reply(b"a", b"user", b"pass", b"salt", &group.n);
    assert!(matches!(r, Err(SrpAuthError::IllegalParameter("b_pub"))));

    // B == 0
    let r = client.process_reply(b"a", b"user", b"pass", b"salt", &[0u8]);
    assert!(matches!(r, Err(SrpAuthError::IllegalParameter("b_pub"))));

    // B == 2 * N
    let twice = (BigUint::from_bytes_be(&group.n) * 2u32).to_bytes_be();
    let r = client.process_reply(b"a", b"user", b"pass", b"salt", &twice);
    assert!(matches!(r, Err(SrpAuthError::IllegalParameter("b_pub"))));
}

#[test]
fn verify_server_rejects_every_single_bit_flip() {
    let group = g_2048();
    let client = SrpClient::new(&group, Sha256Alg);
    let salt = b"some salt";
    let a = b"an ephemeral";
    let b = b"another ephemeral";
    let verifier = client.compute_verifier(b"", b"pw", salt);
    let a_pub = client.compute_public_ephemeral(a);
    let b_pub = reference_b_pub(&group, &verifier, b);
    let holder = client.process_reply(a, b"", b"pw", salt, &b_pub).ok().unwrap();

    let server_key = reference_session_key(&group, &a_pub, &b_pub, &verifier, b);
    let server_m1 = reference_m1(&group, b"", salt, &a_pub, &b_pub, &server_key);
    let server_m2 = h(&[&a_pub, &server_m1, &server_key]);
    assert!(holder.verify_server(&server_m2).is_ok());

    for i in 0..server_m2.len() {
        for bit in 0..8 {
            let mut tweaked = server_m2.clone();
            tweaked[i] ^= 1u8 << bit;
            assert!(matches!(
                holder.verify_server(&tweaked),
                Err(SrpAuthError::BadRecordMac("server"))
            ));
        }
    }
    // A truncated proof fails too.
    assert!(holder.verify_server(&server_m2[1..]).is_err());
}

#[test]
fn compute_k_is_deterministic_and_matches_the_formula() {
    let group = g_2048();
    let k1 = srp_client::compute_k(&Sha256Alg, &group);
    let k2 = srp_client::compute_k(&Sha256Alg, &group);
    assert_eq!(k1, k2);
    assert_eq!(k1, reference_k(&group));
}

#[test]
fn compute_u_matches_the_formula() {
    let u = srp_client::compute_u(&Sha256Alg, b"AAAA", b"BBB");
    assert_eq!(u, h(&[b"AAAABBB"]));
    assert_ne!(u, h(&[b"AAAA"]));
}

#[test]
fn identity_hash_matches_the_formula() {
    let group = g_2048();
    let client = SrpClient::new(&group, Sha256Alg);
    let ih = client.compute_identity_hash(b"user", b"pass");
    assert_eq!(ih, h(&[b"user:pass"]));
    let x = client.compute_x(&ih, b"salty");
    assert_eq!(x, h(&[b"salty", &h(&[b"user:pass"])]));
}

#[test]
fn m1_changes_when_any_input_changes() {
    let group = g_2048();
    let base = srp_client::compute_m1(&Sha256Alg, b"AA", b"BB", b"KK", b"user", b"salt", &group);
    let others = [
        srp_client::compute_m1(&Sha256Alg, b"AB", b"BB", b"KK", b"user", b"salt", &group),
        srp_client::compute_m1(&Sha256Alg, b"AA", b"BC", b"KK", b"user", b"salt", &group),
        srp_client::compute_m1(&Sha256Alg, b"AA", b"BB", b"KL", b"user", b"salt", &group),
        srp_client::compute_m1(&Sha256Alg, b"AA", b"BB", b"KK", b"uper", b"salt", &group),
        srp_client::compute_m1(&Sha256Alg, b"AA", b"BB", b"KK", b"user", b"salu", &group),
    ];
    for other in &others {
        assert_ne!(&base, other);
    }
}

#[test]
fn small_group_arithmetic_is_exact() {
    // n = 7, g = 3: 3^4 mod 7 = 81 mod 7 = 4.
    let group = SrpGroup { n: vec![7], g: vec![3] };
    let client = SrpClient::new(&group, Sha256Alg);
    assert_eq!(client.compute_public_ephemeral(&[4]), vec![4]);
    // v = g^x mod n with x = 2: 3^2 mod 7 = 2.
    assert_eq!(client.compute_v(&[2]), vec![2]);

    // The premaster formula on small numbers, checked against a direct
    // big-integer computation: B=5, k=2, x=3, a=4, u=6.
    let s = client.compute_premaster_secret(&[5], &[2], &[3], &[4], &[6]);
    let n = BigUint::from(7u32);
    let base = (BigUint::from(2u32) * BigUint::from(3u32).modpow(&BigUint::from(3u32), &n)) % &n;
    let diff = ((&n + BigUint::from(5u32)) - base) % &n;
    let exp = BigUint::from(6u32 * 3) + BigUint::from(4u32);
    let expected = diff.modpow(&exp, &n).to_bytes_be();
    assert_eq!(s, expected);
}

#[test]
fn leading_zeros_in_b_pub_do_not_change_the_outcome() {
    let group = g_2048();
    let client = SrpClient::new(&group, Sha256Alg);
    let salt = b"salt";
    let a = b"ephemeral";
    let verifier = client.compute_verifier(b"", b"pw", salt);
    let b_pub = reference_b_pub(&group, &verifier, b"server side");

    let mut padded = vec![0u8, 0u8];
    padded.extend_from_slice(&b_pub);

    let h1 = client.process_reply(a, b"", b"pw", salt, &b_pub).ok().unwrap();
    let h2 = client.process_reply(a, b"", b"pw", salt, &padded).ok().unwrap();
    assert_eq!(h1.key(), h2.key());
    assert_eq!(h1.client_proof(), h2.client_proof());
}

#[test]
fn group_construction_normalizes_and_rejects_unusable_pairs() {
    // Leading zeros are stripped from both encodings.
    let group = SrpGroup::from_bytes_be(&[0, 0, 0x11, 0x22], &[0, 2]).unwrap();
    assert_eq!(group.n, vec![0x11, 0x22]);
    assert_eq!(group.g, vec![2]);

    // A zero modulus is unusable, however it is written.
    assert!(SrpGroup::from_bytes_be(&[], &[2]).is_none());
    assert!(SrpGroup::from_bytes_be(&[0, 0], &[2]).is_none());

    // So is a generator wider than the modulus.
    assert!(SrpGroup::from_bytes_be(&[7], &[1, 0]).is_none());

    // The normalized group behaves like one built from canonical bytes.
    let a = SrpClient::new(&group, Sha256Alg).compute_public_ephemeral(&[3]);
    let direct = SrpGroup { n: vec![0x11, 0x22], g: vec![2] };
    let b = SrpClient::new(&direct, Sha256Alg).compute_public_ephemeral(&[3]);
    assert_eq!(a, b);
}

#[test]
fn the_built_in_group_matches_the_published_constant() {
    let group = g_2048();
    assert_eq!(group.g, vec![2u8]);
    assert_eq!(group.n.len(), 256);
    // Cross-checked against an independent implementation's copy of the
    // RFC 5054 appendix A constant.
    let theirs = srp6::rfc_5054_appendix_a::group_2048_bit::N().to_vec();
    assert_eq!(group.n, theirs);
}
