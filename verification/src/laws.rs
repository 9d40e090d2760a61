//! The laws of the vault protocol, stated over the mathematical model and
//! proved once and for all. Where a law needs the decryption guarantee of the
//! cipher (that decrypting under the encryption key gives the plaintext
//! back), the guarantee appears as a premise: it is exactly what `new` and
//! `attempt` state of every ciphertext they produce, so every caller that
//! built the vault through them can discharge it.

use vstd::prelude::*;
use crate::crypto::{aead_dec, aead_enc, hash_of};
use crate::vault::{
    attempt_model, derived_key, next_salt, persist_model, restore_model, seal_model, wrap_model,
    VaultView, SALT_LEN,
};

verus! {

/// The salt after a run of failed guesses, starting from `salt`: the hash
/// chain that folds each guess in turn into the accumulator.
pub open spec fn salt_chain(salt: Seq<u8>, guesses: Seq<Seq<u8>>) -> Seq<u8>
    decreases guesses.len(),
{
    if guesses.len() == 0 {
        salt
    } else {
        next_salt(salt_chain(salt, guesses.drop_last()), guesses.last())
    }
}

/// The vault after a run of failed guesses, each wrapping the ciphertext in
/// one more encryption layer.
pub open spec fn wrap_chain(v: VaultView, guesses: Seq<Seq<u8>>) -> VaultView
    decreases guesses.len(),
{
    if guesses.len() == 0 {
        v
    } else {
        wrap_model(wrap_chain(v, guesses.drop_last()), guesses.last())
    }
}

/// Round trip: an attempt on a sealed vault with the sealing key returns the
/// plaintext and leaves the vault untouched. The premise is the decryption
/// guarantee that `TrollCrypt::new` states of every vault it returns.
pub proof fn lemma_round_trip(plain: Seq<u8>, key: Seq<u8>)
    requires
        aead_dec(key, aead_enc(key, plain)) == Some(plain),
    ensures
        attempt_model(seal_model(plain, key), key).1 == Some(plain),
        attempt_model(seal_model(plain, key), key).0 == seal_model(plain, key),
{
}

/// Mutation determinism: what an attempt returns and what it leaves behind
/// is a pure function of the prior vault state and the guess, so two copies
/// of one vault, given the same guess, end in identical states.
pub proof fn lemma_mutation_deterministic(
    v1: VaultView,
    v2: VaultView,
    g1: Seq<u8>,
    g2: Seq<u8>,
)
    requires
        v1 == v2,
        g1 == g2,
    ensures
        attempt_model(v1, g1) == attempt_model(v2, g2),
{
}

/// No accidental recovery: when decryption of the current ciphertext under
/// the guess fails — as it does for every guess other than the key of the
/// outermost layer, short of an authentication-tag forgery, which the model
/// cannot rule out — the attempt returns no plaintext at all and replaces
/// the ciphertext with a fresh encryption layer.
pub proof fn lemma_no_accidental_recovery(v: VaultView, guess: Seq<u8>)
    requires
        aead_dec(guess, v.ciphertext) is None,
    ensures
        attempt_model(v, guess).1 is None,
        attempt_model(v, guess).0 == wrap_model(v, guess),
{
}

/// Salt growth as a chain: after a sequence of wrong guesses against a vault
/// sealed under `key`, the salt is the iterated hash chain that starts at
/// the hash of the key and folds in each guess in order.
pub proof fn lemma_salt_chain(plain: Seq<u8>, key: Seq<u8>, guesses: Seq<Seq<u8>>)
    ensures
        wrap_chain(seal_model(plain, key), guesses).salt == salt_chain(hash_of(key), guesses),
    decreases guesses.len(),
{
    if guesses.len() > 0 {
        lemma_salt_chain(plain, key, guesses.drop_last());
    }
}

/// Wrap accumulation, peel direction: the outermost layer that a wrong guess
/// adds is peeled exactly by the key derived from the salt and the guess at
/// wrap time, and what comes out is the prior ciphertext — not the original
/// plaintext, which sits under every remaining layer. The premise is the
/// decryption guarantee that `attempt` states of every layer it adds.
pub proof fn lemma_wrap_peel(v: VaultView, guess: Seq<u8>)
    requires
        aead_dec(
            derived_key(v.salt, guess),
            aead_enc(derived_key(v.salt, guess), v.ciphertext),
        ) == Some(v.ciphertext),
    ensures
        attempt_model(wrap_model(v, guess), derived_key(v.salt, guess)).1 == Some(v.ciphertext),
        attempt_model(wrap_model(v, guess), derived_key(v.salt, guess)).0 == wrap_model(v, guess),
{
}

/// Wrap accumulation over a chain: undoing the last of n accumulated layers
/// takes the key derived from the salt as it stood after the first n - 1
/// wrong guesses and the exact n-th guess, and it uncovers the vault as it
/// stood before that guess — recovery must replay the guess history in
/// order, one layer at a time.
pub proof fn lemma_wrap_chain_peel(v: VaultView, guesses: Seq<Seq<u8>>)
    requires
        guesses.len() > 0,
        aead_dec(
            derived_key(wrap_chain(v, guesses.drop_last()).salt, guesses.last()),
            wrap_chain(v, guesses).ciphertext,
        ) == Some(wrap_chain(v, guesses.drop_last()).ciphertext),
    ensures
        attempt_model(
            wrap_chain(v, guesses),
            derived_key(wrap_chain(v, guesses.drop_last()).salt, guesses.last()),
        ).1 == Some(wrap_chain(v, guesses.drop_last()).ciphertext),
{
}

/// Format round trip: restoring a persisted vault yields that vault back.
pub proof fn lemma_persist_restore(v: VaultView)
    requires
        v.salt.len() == SALT_LEN,
    ensures
        restore_model(persist_model(v)) == Some(v),
{
    assert(persist_model(v).subrange(0, SALT_LEN as int) =~= v.salt);
    assert(persist_model(v).skip(SALT_LEN as int) =~= v.ciphertext);
}

/// Format boundary: a byte sequence shorter than the 32-byte salt restores
/// to nothing, and every longer one restores to a vault.
pub proof fn lemma_restore_boundary(data: Seq<u8>)
    ensures
        restore_model(data) is None <==> data.len() < SALT_LEN,
{
}

} // verus!
