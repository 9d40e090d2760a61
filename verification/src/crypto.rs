//! Trusted bindings to the cryptographic primitives: the AES-256-GCM cipher
//! and the BLAKE3 hash and keyed hash. Every use of the primitives goes
//! through the wrappers here; their contracts name the results through
//! uninterpreted spec functions, since the digests and ciphertexts are pure
//! functions of their inputs that no short formula states.

use vstd::prelude::*;
use aes_gcm::aead::{Aead, KeyInit};
use aes_gcm::{Aes256Gcm, Nonce};

verus! {

/// Length in bytes of the authentication tag that AES-256-GCM appends to
/// every ciphertext.
pub const TAG_LEN: usize = 16;

/// Largest plaintext the cipher wrappers accept. AES-GCM itself caps a
/// single message at just under 64 GiB; this bound stays far below that cap
/// and keeps the tagged ciphertext length inside `usize` on every target.
pub const MAX_PLAIN_LEN: usize = 0xFFFF_FFFF;

/// What AES-256-GCM encryption returns for a key and a plaintext, with the
/// fixed all-zero 12-byte nonce and no associated data. With the nonce a
/// constant, the ciphertext depends on the key and the plaintext alone.
pub uninterp spec fn aead_enc(key: Seq<u8>, plain: Seq<u8>) -> Seq<u8>;

/// What AES-256-GCM decryption returns for a key and a ciphertext, with the
/// same fixed all-zero nonce and no associated data: the recovered plaintext
/// when the authentication tag verifies, and nothing otherwise.
pub uninterp spec fn aead_dec(key: Seq<u8>, ct: Seq<u8>) -> Option<Seq<u8>>;

/// What the BLAKE3 hash of a byte sequence is: a 32-byte digest that depends
/// on the input bytes alone.
pub uninterp spec fn hash_of(data: Seq<u8>) -> Seq<u8>;

/// What the BLAKE3 keyed hash is for a 32-byte key and a message: a 32-byte
/// digest that depends on the key and the message alone.
pub uninterp spec fn keyed_hash_of(key: Seq<u8>, msg: Seq<u8>) -> Seq<u8>;

/// Relies on aes_gcm::Aes256Gcm encryption (through the Aead trait) with the
/// all-zero nonce and no associated data: the ciphertext is the plaintext
/// followed by the 16-byte tag, so it is 16 bytes longer than the plaintext,
/// and decrypting it under the same key and nonce yields the plaintext back.
/// Encryption is total for plaintexts under the AES-GCM message cap, which
/// `MAX_PLAIN_LEN` stays below.
#[verifier::external_body]
pub(crate) fn aead_encrypt(key: &[u8; 32], plain: &[u8]) -> (r: Vec<u8>)
    requires
        plain@.len() <= MAX_PLAIN_LEN,
    ensures
        r@ == aead_enc(key@, plain@),
        r@.len() == plain@.len() + TAG_LEN,
        aead_dec(key@, r@) == Some(plain@),
{
    let cipher = Aes256Gcm::new(key.into());
    let nonce = Nonce::from([0u8; 12]);
    cipher.encrypt(&nonce, plain).expect("AES-GCM encryption failed")
}

/// Relies on aes_gcm::Aes256Gcm decryption (through the Aead trait) with the
/// all-zero nonce and no associated data: it returns the plaintext exactly
/// when the authentication tag verifies, and fails otherwise; the outcome
/// depends on the key and the ciphertext alone.
#[verifier::external_body]
pub(crate) fn aead_decrypt(key: &[u8; 32], ct: &[u8]) -> (r: Option<Vec<u8>>)
    ensures
        match r {
            Some(p) => aead_dec(key@, ct@) == Some(p@),
            None => aead_dec(key@, ct@) is None,
        },
{
    let cipher = Aes256Gcm::new(key.into());
    let nonce = Nonce::from([0u8; 12]);
    cipher.decrypt(&nonce, ct).ok()
}

/// Relies on blake3::hash: a 32-byte digest of the input bytes alone.
#[verifier::external_body]
pub(crate) fn hash32(data: &[u8]) -> (r: [u8; 32])
    ensures
        r@ == hash_of(data@),
{
    *blake3::hash(data).as_bytes()
}

/// Relies on blake3::keyed_hash: a 32-byte digest that depends only on the
/// 32-byte key and the message bytes.
#[verifier::external_body]
pub(crate) fn keyed_hash32(key: &[u8; 32], msg: &[u8; 32]) -> (r: [u8; 32])
    ensures
        r@ == keyed_hash_of(key@, msg@),
{
    *blake3::keyed_hash(key, msg).as_bytes()
}

} // verus!
