//! A deliberately adversarial encrypted container: a vault that punishes a
//! wrong decryption attempt by re-encrypting its own ciphertext under a key
//! derived from the wrong guess, while chaining the guess into a running
//! salt accumulator.

pub mod crypto;
pub mod laws;
pub mod vault;
