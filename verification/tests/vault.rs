use trollcrypt::vault::{password_to_key, FormatError, TrollCrypt};

fn key_from(label: &[u8]) -> [u8; 32] {
    password_to_key(label)
}

fn chained_salt(prev: &[u8; 32], guess: &[u8; 32]) -> [u8; 32] {
    let mut buf = Vec::new();
    buf.extend_from_slice(prev);
    buf.extend_from_slice(guess);
    *blake3::hash(&buf).as_bytes()
}

#[test]
fn round_trip_returns_plaintext_and_leaves_vault_unchanged() {
    let key = key_from(b"correct horse");
    let mut vault = TrollCrypt::new(b"hello world", &key);
    let before = vault.persist();
    let out = vault.attempt(&key);
    assert_eq!(out, Ok(b"hello world".to_vec()));
    assert_eq!(vault.persist(), before);
}

#[test]
fn seal_appends_sixteen_byte_tag_and_hides_plaintext() {
    let key = key_from(b"k");
    let vault = TrollCrypt::new(b"hello world", &key);
    let bytes = vault.persist();
    assert_eq!(bytes.len(), 32 + 11 + 16);
    assert_ne!(&bytes[32..32 + 11], b"hello world".as_slice());
    assert_eq!(&bytes[..32], blake3::hash(&key).as_bytes());
}

#[test]
fn password_to_key_is_the_hash_of_the_password() {
    let key = password_to_key(b"open sesame");
    assert_eq!(&key, blake3::hash(b"open sesame").as_bytes());
    assert_ne!(key, [0u8; 32]);
}

#[test]
fn mutation_is_deterministic_across_copies() {
    let key = key_from(b"real key");
    let wrong = key_from(b"wrong key");
    let vault = TrollCrypt::new(b"payload", &key);
    let bytes = vault.persist();
    let mut copy1 = TrollCrypt::restore(&bytes).unwrap();
    let mut copy2 = TrollCrypt::restore(&bytes).unwrap();
    assert_eq!(copy1.attempt(&wrong), Err(()));
    assert_eq!(copy2.attempt(&wrong), Err(()));
    assert_eq!(copy1.persist(), copy2.persist());
}

#[test]
fn wrong_guess_returns_nothing_and_mutates() {
    let key = key_from(b"real key");
    let wrong = key_from(b"bad guess");
    let mut vault = TrollCrypt::new(b"attack at dawn", &key);
    let before = vault.persist();
    assert_eq!(vault.attempt(&wrong), Err(()));
    let after = vault.persist();
    assert_ne!(after, before);
    // One more 16-byte tag: the ciphertext grew by one encryption layer.
    assert_eq!(after.len(), before.len() + 16);
    // The salt moved as well.
    assert_ne!(&after[..32], &before[..32]);
}

#[test]
fn salt_follows_the_iterated_hash_chain() {
    let key = key_from(b"the sealing key");
    let mut vault = TrollCrypt::new(b"secret", &key);
    let mut expected = *blake3::hash(&key).as_bytes();
    assert_eq!(&vault.persist()[..32], &expected);
    let guesses = [
        key_from(b"guess one"),
        key_from(b"guess two"),
        key_from(b"guess three"),
        key_from(b"guess four"),
        key_from(b"guess five"),
    ];
    for guess in &guesses {
        assert_eq!(vault.attempt(guess), Err(()));
        expected = chained_salt(&expected, guess);
        assert_eq!(&vault.persist()[..32], &expected);
    }
}

#[test]
fn wrap_must_be_peeled_with_the_derived_key() {
    let key1 = key_from(b"original key");
    let key2 = key_from(b"intruder guess");
    let vault = TrollCrypt::new(b"hello world", &key1);
    let sealed = vault.persist();
    let original_ct = sealed[32..].to_vec();

    let mut wrapped = TrollCrypt::restore(&sealed).unwrap();
    assert_eq!(wrapped.attempt(&key2), Err(()));
    let wrapped_bytes = wrapped.persist();

    // The original key no longer opens the once-wrapped vault.
    let mut probe = TrollCrypt::restore(&wrapped_bytes).unwrap();
    assert_eq!(probe.attempt(&key1), Err(()));

    // The key derived from the pre-wrap salt and the exact guess peels the
    // layer, and what comes out is the prior ciphertext, not the plaintext.
    let salt0 = *blake3::hash(&key1).as_bytes();
    let derived = *blake3::keyed_hash(&salt0, &key2).as_bytes();
    let mut peel = TrollCrypt::restore(&wrapped_bytes).unwrap();
    let inner = peel.attempt(&derived).unwrap();
    assert_eq!(inner, original_ct);
    assert_ne!(inner, b"hello world".to_vec());
}

#[test]
fn restore_rejects_inputs_shorter_than_the_salt() {
    assert_eq!(TrollCrypt::restore(&[]).err(), Some(FormatError));
    assert_eq!(TrollCrypt::restore(&[7u8; 31]).err(), Some(FormatError));
    assert!(TrollCrypt::restore(&[7u8; 32]).is_ok());
}

#[test]
fn restore_inverts_persist() {
    let key = key_from(b"whatever");
    let vault = TrollCrypt::new(b"some plaintext", &key);
    let bytes = vault.persist();
    let again = TrollCrypt::restore(&bytes).unwrap();
    assert_eq!(again.persist(), bytes);

    // Also for a vault that is not freshly sealed.
    let mut mutated = TrollCrypt::restore(&bytes).unwrap();
    assert_eq!(mutated.attempt(&key_from(b"nope")), Err(()));
    let mutated_bytes = mutated.persist();
    let restored = TrollCrypt::restore(&mutated_bytes).unwrap();
    assert_eq!(restored.persist(), mutated_bytes);
}

#[test]
fn end_to_end_wrong_guess_then_replayed_recovery() {
    let key1 = key_from(b"K1");
    let key2 = key_from(b"K2");

    // Seal and "save".
    let vault = TrollCrypt::new(b"hello world", &key1);
    let saved = vault.persist();

    // "Load" and attempt with the wrong key: the attempt fails and the
    // persisted bytes change.
    let mut loaded = TrollCrypt::restore(&saved).unwrap();
    assert_eq!(loaded.attempt(&key2), Err(()));
    let saved_after_wrong = loaded.persist();
    assert_ne!(saved_after_wrong, saved);

    // The original key fails against the now-wrapped vault, and that attempt
    // wraps it once more.
    assert_eq!(loaded.attempt(&key1), Err(()));

    // Recovery replays the guess history in order, peeling one layer per
    // attempt with the key derived from the salt and guess at wrap time.
    let salt0 = *blake3::hash(&key1).as_bytes();
    let salt1 = chained_salt(&salt0, &key2);
    let derived2 = *blake3::keyed_hash(&salt1, &key1).as_bytes();
    let once_wrapped_ct = loaded.attempt(&derived2).unwrap();
    assert_eq!(once_wrapped_ct, saved_after_wrong[32..].to_vec());

    let derived1 = *blake3::keyed_hash(&salt0, &key2).as_bytes();
    let mut shell = [0u8; 32].to_vec();
    shell.extend_from_slice(&once_wrapped_ct);
    let original_ct = TrollCrypt::restore(&shell).unwrap().attempt(&derived1).unwrap();

    let mut core = [0u8; 32].to_vec();
    core.extend_from_slice(&original_ct);
    let plain = TrollCrypt::restore(&core).unwrap().attempt(&key1).unwrap();
    assert_eq!(plain, b"hello world".to_vec());
}
