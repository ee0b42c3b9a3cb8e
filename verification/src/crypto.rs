//! AES-256-GCM sealing of secrets, through the `aes-gcm` crate.

use vstd::prelude::*;
use aes_gcm::aead::{Aead, KeyInit};
use rand::RngCore;

verus! {

/// Errors of the `aead` traits; opaque here.
#[verifier::external_type_specification]
#[verifier::external_body]
pub struct ExAeadError(aes_gcm::aead::Error);

/// The longest plaintext that AES-GCM accepts, in bytes (2^36).
pub open spec fn aes_gcm_max_plaintext() -> nat {
    0x10_0000_0000
}

/// The ciphertext (with its tag) that AES-256-GCM gives for a key, a nonce
/// and a plaintext, with no associated data.
pub uninterp spec fn aes256gcm_ciphertext(key: Seq<u8>, nonce: Seq<u8>, plaintext: Seq<u8>) -> Seq<u8>;

/// The plaintext that AES-256-GCM recovers from a key, a nonce and a
/// ciphertext with its tag, or `None` where the tag does not check.
pub uninterp spec fn aes256gcm_plaintext(key: Seq<u8>, nonce: Seq<u8>, ciphertext: Seq<u8>) -> Option<Seq<u8>>;

/// `Aes256Gcm::encrypt` (crate `aes-gcm`, trait `aead::Aead`), with no
/// associated data. Claimed: the call fails exactly when the plaintext is
/// longer than 2^36 bytes (the crate's `P_MAX` check); otherwise it returns
/// the named ciphertext, and decrypting that ciphertext under the same key
/// and nonce gives the plaintext back (the AEAD correctness that the crate
/// implements: the same keystream is applied again and the tag it computed
/// is checked against itself). The key must be 32 bytes and the nonce 12,
/// or `from_slice` panics.
#[verifier::external_body]
pub(crate) fn aes256gcm_encrypt(key: &[u8], nonce: &[u8], plaintext: &[u8]) -> (r: Result<
    Vec<u8>,
    aes_gcm::aead::Error,
>)
    requires
        key@.len() == 32,
        nonce@.len() == 12,
    ensures
        r is Ok <==> plaintext@.len() <= aes_gcm_max_plaintext(),
        r matches Ok(c) ==> c@ == aes256gcm_ciphertext(key@, nonce@, plaintext@),
        r matches Ok(c) ==> aes256gcm_plaintext(key@, nonce@, c@) == Some(plaintext@),
{
    let cipher = aes_gcm::Aes256Gcm::new(aes_gcm::Key::<aes_gcm::Aes256Gcm>::from_slice(key));
    cipher.encrypt(aes_gcm::Nonce::from_slice(nonce), plaintext)
}

/// `Aes256Gcm::decrypt` (crate `aes-gcm`, trait `aead::Aead`), with no
/// associated data. Claimed: it returns the named plaintext, and fails
/// exactly where that name is `None`. The key must be 32 bytes and the
/// nonce 12, or `from_slice` panics.
#[verifier::external_body]
pub(crate) fn aes256gcm_decrypt(key: &[u8], nonce: &[u8], ciphertext: &[u8]) -> (r: Result<
    Vec<u8>,
    aes_gcm::aead::Error,
>)
    requires
        key@.len() == 32,
        nonce@.len() == 12,
    ensures
        r is Ok <==> aes256gcm_plaintext(key@, nonce@, ciphertext@) is Some,
        r matches Ok(p) ==> aes256gcm_plaintext(key@, nonce@, ciphertext@) == Some(p@),
{
    let cipher = aes_gcm::Aes256Gcm::new(aes_gcm::Key::<aes_gcm::Aes256Gcm>::from_slice(key));
    cipher.decrypt(aes_gcm::Nonce::from_slice(nonce), ciphertext)
}

/// Errors of `rand_core` random sources; opaque here.
#[verifier::external_type_specification]
#[verifier::external_body]
pub struct ExRandError(rand::Error);

/// Fills a 12-byte nonce from the operating system's generator
/// (`aes_gcm::aead::OsRng`, through `rand::RngCore::try_fill_bytes`, which
/// reports the generator's failure instead of panicking). Claimed: only
/// that a nonce that came back has 12 bytes; the bytes are random, and
/// whether the generator fails is not stated.
#[verifier::external_body]
pub(crate) fn random_nonce() -> (r: Result<Vec<u8>, rand::Error>)
    ensures
        r matches Ok(v) ==> v@.len() == 12,
{
    let mut nonce = [0u8; 12];
    match aes_gcm::aead::OsRng.try_fill_bytes(&mut nonce) {
        Ok(()) => Ok(nonce.to_vec()),
        Err(e) => Err(e),
    }
}

} // verus!
