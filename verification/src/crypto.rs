//! The cryptographic primitives the handshake consumes, each behind a small
//! trusted boundary: SHA-256, the two ephemeral key agreements, RSA signature
//! verification, and the random source.

use vstd::prelude::*;

verus! {

/// The SHA-256 digest of a byte string; what it is on given bytes only the
/// primitive knows, but the same bytes always give the same digest.
pub uninterp spec fn sha256_of(b: Seq<u8>) -> Seq<u8>;

/// Relies on ring::digest::digest with SHA256: the digest depends on the
/// input alone and holds 32 bytes.
#[verifier::external_body]
pub(crate) fn sha256(data: &Vec<u8>) -> (r: Vec<u8>)
    ensures
        r@ == sha256_of(data@),
        r@.len() == 32,
{
    ring::digest::digest(&ring::digest::SHA256, data.as_slice()).as_ref().to_vec()
}

/// Whether the RSA-PKCS#1-SHA1 signature `sig` verifies `msg` under the
/// public key `(n, e)`, both encoded big-endian without leading zeros;
/// acceptance depends on these arguments alone.
pub uninterp spec fn rsa_pkcs1_sha1_verifies(n: Seq<u8>, e: Seq<u8>, msg: Seq<u8>, sig: Seq<u8>) -> bool;

/// Relies on ring::signature::RsaPublicKeyComponents::verify with the
/// RSA_PKCS1_2048_8192_SHA1_FOR_LEGACY_USE_ONLY parameters: deterministic
/// acceptance or rejection of the signature.
#[verifier::external_body]
pub(crate) fn rsa_verify(n: &[u8], e: &[u8], msg: &[u8], sig: &[u8]) -> (r: bool)
    ensures
        r == rsa_pkcs1_sha1_verifies(n@, e@, msg@, sig@),
{
    let key = ring::signature::RsaPublicKeyComponents { n, e };
    key.verify(&ring::signature::RSA_PKCS1_2048_8192_SHA1_FOR_LEGACY_USE_ONLY, msg, sig).is_ok()
}

#[verifier::external_type_specification]
#[verifier::external_body]
pub struct ExEphemeralPrivateKey(ring::agreement::EphemeralPrivateKey);

/// Relies on ring::agreement::EphemeralPrivateKey::generate with X25519 and
/// ring::rand::SystemRandom: a fresh keypair; an X25519 public value is 32
/// bytes.
#[verifier::external_body]
pub(crate) fn x25519_generate() -> (r: Option<
    (ring::agreement::EphemeralPrivateKey, Vec<u8>),
>)
    ensures
        r matches Some(kp) ==> kp.1@.len() == 32,
{
    let rng = ring::rand::SystemRandom::new();
    let priv_key = match ring::agreement::EphemeralPrivateKey::generate(
        &ring::agreement::X25519,
        &rng,
    ) {
        Ok(k) => k,
        Err(_) => {
            return None;
        },
    };
    match priv_key.compute_public_key() {
        Ok(p) => Some((priv_key, p.as_ref().to_vec())),
        Err(_) => None,
    }
}

/// Relies on ring::agreement::EphemeralPrivateKey::generate with ECDH_P256
/// and ring::rand::SystemRandom: a fresh keypair; a P-256 public value is the
/// 65-byte uncompressed point.
#[verifier::external_body]
pub(crate) fn p256_generate() -> (r: Option<(ring::agreement::EphemeralPrivateKey, Vec<u8>)>)
    ensures
        r matches Some(kp) ==> kp.1@.len() == 65,
{
    let rng = ring::rand::SystemRandom::new();
    let priv_key = match ring::agreement::EphemeralPrivateKey::generate(
        &ring::agreement::ECDH_P256,
        &rng,
    ) {
        Ok(k) => k,
        Err(_) => {
            return None;
        },
    };
    match priv_key.compute_public_key() {
        Ok(p) => Some((priv_key, p.as_ref().to_vec())),
        Err(_) => None,
    }
}

/// Relies on ring::agreement::agree_ephemeral with X25519: the private key
/// is consumed, an invalid peer point is rejected, and a shared secret is 32
/// bytes.
#[verifier::external_body]
pub(crate) fn x25519_agree(
    my_priv: ring::agreement::EphemeralPrivateKey,
    peer: &Vec<u8>,
) -> (r: Option<Vec<u8>>)
    ensures
        r matches Some(k) ==> k@.len() == 32,
{
    let peer_key = ring::agreement::UnparsedPublicKey::new(
        &ring::agreement::X25519,
        peer.as_slice(),
    );
    match ring::agreement::agree_ephemeral(my_priv, &peer_key, |secret: &[u8]| secret.to_vec()) {
        Ok(k) => Some(k),
        Err(_) => None,
    }
}

/// Relies on ring::agreement::agree_ephemeral with ECDH_P256: the private
/// key is consumed, an invalid peer point is rejected, and a shared secret is
/// the 32-byte x coordinate.
#[verifier::external_body]
pub(crate) fn p256_agree(
    my_priv: ring::agreement::EphemeralPrivateKey,
    peer: &Vec<u8>,
) -> (r: Option<Vec<u8>>)
    ensures
        r matches Some(k) ==> k@.len() == 32,
{
    let peer_key = ring::agreement::UnparsedPublicKey::new(
        &ring::agreement::ECDH_P256,
        peer.as_slice(),
    );
    match ring::agreement::agree_ephemeral(my_priv, &peer_key, |secret: &[u8]| secret.to_vec()) {
        Ok(k) => Some(k),
        Err(_) => None,
    }
}

#[verifier::external_type_specification]
#[verifier::external_body]
pub struct ExThreadRng(rand::rngs::ThreadRng);

/// Relies on rand::rng: a handle to the thread's cryptographically secure
/// generator.
#[verifier::external_body]
pub(crate) fn new_thread_rng() -> rand::rngs::ThreadRng {
    rand::rng()
}

/// Relies on rand::Rng::fill_bytes: `n` bytes from the given source.
#[verifier::external_body]
pub(crate) fn random_bytes_from<R: rand::Rng>(rng: &mut R, n: usize) -> (r: Vec<u8>)
    ensures
        r@.len() == n,
{
    let mut v = vec![0u8; n];
    rng.fill_bytes(v.as_mut_slice());
    v
}

} // verus!
