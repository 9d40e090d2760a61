//! The mutating vault: an authenticated-encryption container that, on every
//! failed decryption attempt, re-encrypts its own ciphertext under a key
//! derived from the wrong guess and chains the guess into its salt.

use vstd::prelude::*;
use vstd::slice::{slice_subrange, slice_to_vec};
use crate::crypto::{
    aead_dec, aead_enc, aead_decrypt, aead_encrypt, hash32, hash_of, keyed_hash32, keyed_hash_of,
    MAX_PLAIN_LEN, TAG_LEN,
};

verus! {

/// Length in bytes of the salt: one BLAKE3 digest.
pub const SALT_LEN: usize = 32;

/// Mathematical state of a vault: the current ciphertext and the salt that
/// accumulates the history of wrong guesses.
pub struct VaultView {
    pub ciphertext: Seq<u8>,
    pub salt: Seq<u8>,
}

/// An encrypted container that punishes wrong guesses. A successful attempt
/// returns the plaintext and leaves the container untouched; a failed one
/// wraps the ciphertext in one more encryption layer and advances the salt.
pub struct TrollCrypt {
    ciphertext: Vec<u8>,
    salt: [u8; 32],
}

impl View for TrollCrypt {
    type V = VaultView;

    closed spec fn view(&self) -> VaultView {
        VaultView { ciphertext: self.ciphertext@, salt: self.salt@ }
    }
}

/// The replacement key derived from a wrong guess: the keyed hash of the
/// guess under the current salt.
pub open spec fn derived_key(salt: Seq<u8>, guess: Seq<u8>) -> Seq<u8> {
    keyed_hash_of(salt, guess)
}

/// The salt after a failed guess: the hash of the old salt followed by the
/// guess, so the salt is a hash chain over the whole guess history.
pub open spec fn next_salt(salt: Seq<u8>, guess: Seq<u8>) -> Seq<u8> {
    hash_of(salt + guess)
}

/// The vault that sealing produces: the plaintext encrypted under the key,
/// and the hash of the key as the initial salt.
pub open spec fn seal_model(plain: Seq<u8>, key: Seq<u8>) -> VaultView {
    VaultView { ciphertext: aead_enc(key, plain), salt: hash_of(key) }
}

/// The vault after one failed guess: the old ciphertext becomes the
/// plaintext of a fresh encryption layer under the derived key, and the salt
/// is chained with the guess.
pub open spec fn wrap_model(v: VaultView, guess: Seq<u8>) -> VaultView {
    VaultView {
        ciphertext: aead_enc(derived_key(v.salt, guess), v.ciphertext),
        salt: next_salt(v.salt, guess),
    }
}

/// The full outcome of an attempt: the plaintext and the unchanged vault
/// when decryption verifies, no plaintext and the wrapped vault otherwise.
pub open spec fn attempt_model(v: VaultView, guess: Seq<u8>) -> (VaultView, Option<Seq<u8>>) {
    match aead_dec(guess, v.ciphertext) {
        Some(p) => (v, Some(p)),
        None => (wrap_model(v, guess), None),
    }
}

/// The persisted form of a vault: the 32-byte salt followed by the
/// ciphertext.
pub open spec fn persist_model(v: VaultView) -> Seq<u8> {
    v.salt + v.ciphertext
}

/// What restoring a byte sequence yields: the first 32 bytes as the salt and
/// the rest as the ciphertext, or nothing when the input is too short to
/// hold a salt.
pub open spec fn restore_model(data: Seq<u8>) -> Option<VaultView> {
    if data.len() >= SALT_LEN {
        Some(VaultView { ciphertext: data.skip(SALT_LEN as int), salt: data.subrange(0, SALT_LEN as int) })
    } else {
        None
    }
}

/// A persisted vault too short to hold its 32-byte salt.
#[derive(Debug, PartialEq, Eq, Structural)]
pub struct FormatError;

/// Hash an arbitrary-length password down to a 32-byte cipher key.
pub fn password_to_key(password: &[u8]) -> (key: [u8; 32])
    ensures
        key@ == hash_of(password@),
{
    hash32(password)
}

impl TrollCrypt {
    /// Seal a plaintext under a key: encrypt it with the fixed all-zero
    /// nonce and start the salt chain at the hash of the key.
    pub fn new(plaintext: &[u8], key: &[u8; 32]) -> (v: Self)
        requires
            plaintext@.len() <= MAX_PLAIN_LEN,
        ensures
            v@ == seal_model(plaintext@, key@),
            aead_dec(key@, v@.ciphertext) == Some(plaintext@),
            v@.ciphertext.len() == plaintext@.len() + TAG_LEN,
    {
        let ciphertext = aead_encrypt(key, plaintext);
        let salt = hash32(key);
        Self { ciphertext, salt }
    }

    /// Attempt to decrypt with a guessed key. On success the plaintext is
    /// returned and the vault is left exactly as it was. On a wrong guess the
    /// ciphertext is re-encrypted under the key derived from the salt and the
    /// guess, the salt is chained with the guess, and no plaintext comes back.
    /// A wrong guess also leaves behind the fact that the derived key peels
    /// the fresh layer off again: undoing the damage needs the exact guess.
    pub fn attempt(&mut self, key: &[u8; 32]) -> (r: Result<Vec<u8>, ()>)
        requires
            old(self)@.ciphertext.len() <= MAX_PLAIN_LEN,
        ensures
            final(self)@ == attempt_model(old(self)@, key@).0,
            match r {
                Ok(p) => attempt_model(old(self)@, key@).1 == Some(p@),
                Err(e) => attempt_model(old(self)@, key@).1 is None,
            },
            r is Err ==> aead_dec(
                derived_key(old(self)@.salt, key@),
                final(self)@.ciphertext,
            ) == Some(old(self)@.ciphertext),
            r is Err ==> final(self)@.ciphertext.len() == old(self)@.ciphertext.len() + TAG_LEN,
    {
        match aead_decrypt(key, self.ciphertext.as_slice()) {
            Some(plaintext) => Ok(plaintext),
            None => {
                let new_key = keyed_hash32(&self.salt, key);
                let wrapped = aead_encrypt(&new_key, self.ciphertext.as_slice());
                let chained = concat_bytes(self.salt.as_slice(), key.as_slice());
                self.ciphertext = wrapped;
                self.salt = hash32(chained.as_slice());
                Err(())
            },
        }
    }

    /// Serialize the vault as the 32-byte salt followed by the ciphertext.
    pub fn persist(&self) -> (out: Vec<u8>)
        ensures
            out@ == persist_model(self@),
    {
        concat_bytes(self.salt.as_slice(), self.ciphertext.as_slice())
    }

    /// Rebuild a vault from its persisted form: the first 32 bytes are the
    /// salt, the rest the ciphertext. Inputs shorter than the salt are
    /// rejected with a format error; every other input is accepted.
    pub fn restore(data: &[u8]) -> (r: Result<Self, FormatError>)
        ensures
            r is Ok <==> data@.len() >= SALT_LEN,
            match r {
                Ok(v) => restore_model(data@) == Some(v@),
                Err(e) => restore_model(data@) is None && e == FormatError,
            },
    {
        if data.len() < SALT_LEN {
            return Err(FormatError);
        }
        let mut salt = [0u8; 32];
        let mut i: usize = 0;
        while i < 32
            invariant
                i <= 32,
                data@.len() >= SALT_LEN,
                forall|k: int| 0 <= k < i ==> salt@[k] == data@[k],
            decreases 32 - i,
        {
            salt[i] = data[i];
            i = i + 1;
        }
        let ciphertext = slice_to_vec(slice_subrange(data, SALT_LEN, data.len()));
        let v = Self { ciphertext, salt };
        proof {
            assert(salt@ =~= data@.subrange(0, SALT_LEN as int));
            assert(restore_model(data@) == Some(v@));
        }
        Ok(v)
    }
}

/// Concatenate two byte slices into a fresh vector.
fn concat_bytes(a: &[u8], b: &[u8]) -> (r: Vec<u8>)
    ensures
        r@ == a@ + b@,
{
    let mut r: Vec<u8> = Vec::new();
    let mut i: usize = 0;
    while i < a.len()
        invariant
            i <= a@.len(),
            r@ == a@.subrange(0, i as int),
        decreases a@.len() - i,
    {
        r.push(a[i]);
        assert(a@.subrange(0, i as int).push(a@[i as int]) =~= a@.subrange(0, i + 1));
        i = i + 1;
    }
    assert(a@.subrange(0, a@.len() as int) =~= a@);
    let mut j: usize = 0;
    while j < b.len()
        invariant
            j <= b@.len(),
            r@ == a@ + b@.subrange(0, j as int),
        decreases b@.len() - j,
    {
        r.push(b[j]);
        assert((a@ + b@.subrange(0, j as int)).push(b@[j as int]) =~= a@ + b@.subrange(
            0,
            j + 1,
        ));
        j = j + 1;
    }
    assert(a@ + b@.subrange(0, b@.len() as int) =~= a@ + b@);
    r
}

} // verus!
