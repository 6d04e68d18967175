use chacrab::crypto::{
    create_registration_material, decrypt, derive_key, derive_key_with_params, encrypt,
    encrypt_with_nonce, generate_salt, registration_material_for_salt, verify_password,
    verify_password_with_params, wipe_key, zeroize_vec, KEY_SIZE,
};
use chacrab::errors::ChacrabError;

#[test]
fn derive_and_verify_password_roundtrip() {
    let master_password = "MasterPass12!";
    let (registration, derived) =
        create_registration_material(master_password).expect("registration material");

    let verified = verify_password(
        master_password,
        &registration.salt_b64,
        &registration.verifier,
    )
    .expect("password verification should pass");

    assert_eq!(derived.len(), KEY_SIZE);
    assert_eq!(verified.len(), KEY_SIZE);
    assert_eq!(verified, derived);
}

#[test]
fn verify_rejects_wrong_password() {
    let master_password = "MasterPass12!";
    let wrong_password = "WrongPass12!";
    let (registration, _) =
        create_registration_material(master_password).expect("registration material");

    let result = verify_password(
        wrong_password,
        &registration.salt_b64,
        &registration.verifier,
    );
    assert!(result.is_err());
}

#[test]
fn encrypt_decrypt_roundtrip() {
    let master_password = "MasterPass12!";
    let salt = generate_salt();
    let key = derive_key(master_password, &salt).expect("key derivation");
    let plaintext = b"top secret payload";

    let blob = encrypt(&key, plaintext).expect("encryption");
    let decrypted = decrypt(&key, &blob.nonce, &blob.ciphertext).expect("decryption");
    assert_eq!(decrypted, plaintext);
}

#[test]
fn encryption_uses_random_nonce() {
    let master_password = "MasterPass12!";
    let salt = generate_salt();
    let key = derive_key(master_password, &salt).expect("key derivation");
    let plaintext = b"same plaintext";

    let first = encrypt(&key, plaintext).expect("first encryption");
    let second = encrypt(&key, plaintext).expect("second encryption");

    assert_ne!(first.nonce, second.nonce, "nonces should be randomly generated");
    assert_ne!(first.ciphertext, second.ciphertext);
}

#[test]
fn generated_salt_has_22_base64_characters() {
    let salt = generate_salt();
    assert_eq!(salt.chars().count(), 22);
    assert!(salt.is_ascii());
    assert_ne!(salt, generate_salt());
}

#[test]
fn derivation_is_a_function_of_password_salt_and_costs() {
    let salt = "c29tZXNhbHRzb21lc2FsdA";
    let first = derive_key_with_params("MasterPass12!", salt, 8, 1, 1).expect("derives");
    let again = derive_key_with_params("MasterPass12!", salt, 8, 1, 1).expect("derives");
    let other_password = derive_key_with_params("MasterPass13!", salt, 8, 1, 1).expect("derives");
    let other_costs = derive_key_with_params("MasterPass12!", salt, 16, 1, 1).expect("derives");
    assert_eq!(first, again);
    assert_ne!(first, other_password);
    assert_ne!(first, other_costs);
    assert_ne!(first, [0u8; 32]);
}

#[test]
fn derivation_matches_argon2id_on_the_salt_text() {
    let salt = "c29tZXNhbHRzb21lc2FsdA";
    let key = derive_key_with_params("MasterPass12!", salt, 8, 1, 1).expect("derives");
    let params = argon2::Params::new(8, 1, 1, Some(32)).expect("costs");
    let engine = argon2::Argon2::new(argon2::Algorithm::Argon2id, argon2::Version::V0x13, params);
    let mut expected = [0u8; 32];
    engine
        .hash_password_into(b"MasterPass12!", salt.as_bytes(), &mut expected)
        .expect("hashes");
    assert_eq!(key, expected);
}

#[test]
fn derivation_turns_away_bad_salts() {
    for salt in ["", "abc", "not base64 at all!!!!!", "c29tZXNhbHQ", "c29tZXNhbHRzb21lc2Fs"] {
        assert!(matches!(
            derive_key("MasterPass12!", salt),
            Err(ChacrabError::InvalidCredentials)
        ));
    }
}

#[test]
fn derivation_turns_away_bad_costs() {
    let salt = "c29tZXNhbHRzb21lc2FsdA";
    for (m, t, p) in [(7u32, 1u32, 1u32), (8, 0, 1), (8, 1, 0), (8, 1, 2), (8, 1, 0x100_0000), (64, 1, u32::MAX)] {
        assert!(matches!(
            derive_key_with_params("MasterPass12!", salt, m, t, p),
            Err(ChacrabError::InvalidCredentials)
        ));
    }
    assert!(derive_key_with_params("MasterPass12!", salt, 16, 1, 2).is_ok());
}

#[test]
fn registration_keeps_the_given_salt() {
    let salt = "c29tZXNhbHRzb21lc2FsdA".to_owned();
    let (material, key) =
        registration_material_for_salt("MasterPass12!", salt.clone()).expect("registers");
    assert_eq!(material.salt_b64, salt);
    assert!(material.verifier.starts_with("$argon2id$v=19$m=65536,t=3,p=1$"));
    assert_eq!(key, derive_key("MasterPass12!", &salt).expect("derives"));
    assert_eq!(
        verify_password("MasterPass12!", &material.salt_b64, &material.verifier).expect("verifies"),
        key
    );
}

#[test]
fn registration_turns_away_a_bad_salt() {
    assert!(matches!(
        registration_material_for_salt("MasterPass12!", "short".to_owned()),
        Err(ChacrabError::InvalidCredentials)
    ));
}

#[test]
fn verification_turns_away_a_verifier_that_is_no_phc_string() {
    let salt = "c29tZXNhbHRzb21lc2FsdA";
    assert!(matches!(
        verify_password_with_params("MasterPass12!", salt, "garbage", 8, 1, 1),
        Err(ChacrabError::InvalidCredentials)
    ));
}

#[test]
fn verification_turns_away_a_verifier_with_too_many_lanes() {
    let salt = "c29tZXNhbHRzb21lc2FsdA";
    let verifier = "$argon2id$v=19$m=8,t=1,p=4294967295$c29tZXNhbHRzb21lc2FsdA$AAAAAAAAAAAAAAAAAAAAAAAAAAAAAAAAAAAAAAAAAAA";
    assert!(matches!(
        verify_password_with_params("MasterPass12!", salt, verifier, 8, 1, 1),
        Err(ChacrabError::InvalidCredentials)
    ));
}

#[test]
fn ciphertext_is_sixteen_bytes_longer_than_plaintext() {
    let key = [7u8; 32];
    let blob = encrypt_with_nonce(&key, [1u8; 12], b"hello").expect("encrypts");
    assert_eq!(blob.nonce, [1u8; 12]);
    assert_eq!(blob.ciphertext.len(), 5 + 16);
    assert_ne!(&blob.ciphertext[..5], b"hello");
    let empty = encrypt_with_nonce(&key, [1u8; 12], b"").expect("encrypts");
    assert_eq!(empty.ciphertext.len(), 16);
}

#[test]
fn encryption_is_chacha20poly1305() {
    let mut key = [0u8; 32];
    for (i, byte) in key.iter_mut().enumerate() {
        *byte = 0x80 + i as u8;
    }
    let nonce = [7u8, 0, 0, 0, 0x40, 0x41, 0x42, 0x43, 0x44, 0x45, 0x46, 0x47];
    let plaintext = b"Ladies and Gentlemen of the class of '99";
    let blob = encrypt_with_nonce(&key, nonce, plaintext).expect("encrypts");
    let cipher = <chacha20poly1305::ChaCha20Poly1305 as chacha20poly1305::KeyInit>::new(
        chacha20poly1305::Key::from_slice(&key),
    );
    let expected = chacha20poly1305::aead::Aead::encrypt(
        &cipher,
        chacha20poly1305::Nonce::from_slice(&nonce),
        &plaintext[..],
    )
    .expect("encrypts");
    assert_eq!(blob.ciphertext, expected);
    assert_eq!(&blob.ciphertext[..4], &[0xd3, 0x1a, 0x8d, 0x34]);
    assert_eq!(decrypt(&key, &nonce, &blob.ciphertext).expect("decrypts"), plaintext);
}

#[test]
fn decryption_fails_on_every_mismatch() {
    let key = [7u8; 32];
    let blob = encrypt_with_nonce(&key, [1u8; 12], b"hello").expect("encrypts");
    let mut wrong_key = key;
    wrong_key[0] ^= 1;
    assert!(matches!(decrypt(&wrong_key, &blob.nonce, &blob.ciphertext), Err(ChacrabError::Crypto)));
    assert!(matches!(decrypt(&key, &[2u8; 12], &blob.ciphertext), Err(ChacrabError::Crypto)));
    let mut tampered = blob.ciphertext.clone();
    tampered[0] ^= 1;
    assert!(matches!(decrypt(&key, &blob.nonce, &tampered), Err(ChacrabError::Crypto)));
    assert!(matches!(decrypt(&key, &blob.nonce, &[]), Err(ChacrabError::Crypto)));
    assert!(matches!(decrypt(&key, &blob.nonce, &blob.ciphertext[..15]), Err(ChacrabError::Crypto)));
}

#[test]
fn wiping_empties_a_buffer_and_zeroes_a_key() {
    let mut buffer = vec![1u8, 2, 3];
    zeroize_vec(&mut buffer);
    assert!(buffer.is_empty());
    let mut key = [9u8; 32];
    wipe_key(&mut key);
    assert_eq!(key, [0u8; 32]);
}

fn small_verifier(password: &str, salt: &str) -> (String, [u8; 32]) {
    let key = derive_key_with_params(password, salt, 8, 1, 1).expect("derives");
    let params = argon2::Params::new(8, 1, 1, Some(32)).expect("costs");
    let engine = argon2::Argon2::new(argon2::Algorithm::Argon2id, argon2::Version::V0x13, params);
    let salt_string = argon2::password_hash::SaltString::from_b64(salt).expect("salt");
    let verifier = argon2::PasswordHasher::hash_password(&engine, &key, &salt_string)
        .expect("hashes")
        .to_string();
    (verifier, key)
}

#[test]
fn verification_turns_away_a_verifier_that_repeats_a_cost_beyond_the_limit() {
    let salt = "c29tZXNhbHRzb21lc2FsdA";
    let (verifier, key) = small_verifier("MasterPass12!", salt);
    assert!(verifier.contains("$m=8,t=1,p=1$"));
    assert_eq!(
        verify_password_with_params("MasterPass12!", salt, &verifier, 8, 1, 1).expect("verifies"),
        key
    );
    for repeated in [
        "p=1,p=4294967295$",
        "p=4294967295,p=1$",
        "p=1,p=16777216$",
        "p=1,p=536870912$",
        "p=1,m=8,p=1,p=4294967295$",
    ] {
        let tampered = verifier.replace("p=1$", repeated);
        assert!(matches!(
            verify_password_with_params("MasterPass12!", salt, &tampered, 8, 1, 1),
            Err(ChacrabError::InvalidCredentials)
        ));
    }
}

#[test]
fn verification_takes_the_last_of_a_repeated_cost() {
    let salt = "c29tZXNhbHRzb21lc2FsdA";
    let (verifier, key) = small_verifier("MasterPass12!", salt);
    let twice = verifier.replace("p=1$", "p=1,p=1$");
    assert_eq!(
        verify_password_with_params("MasterPass12!", salt, &twice, 8, 1, 1).expect("verifies"),
        key
    );
    let first_differs = verifier.replace("m=8,", "m=16,m=8,");
    assert_eq!(
        verify_password_with_params("MasterPass12!", salt, &first_differs, 8, 1, 1)
            .expect("verifies"),
        key
    );
    let last_differs = verifier.replace("m=8,", "m=8,m=16,");
    assert!(matches!(
        verify_password_with_params("MasterPass12!", salt, &last_differs, 8, 1, 1),
        Err(ChacrabError::InvalidCredentials)
    ));
}
