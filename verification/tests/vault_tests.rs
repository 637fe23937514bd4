use base64::engine::general_purpose::STANDARD;
use base64::Engine;

use rustpass::codec::{
    create_password_file, load_passwords, load_passwords_with_key, parse_vault_file,
    save_passwords,
};
use rustpass::models::{Metadata, PasswordEntry, VaultError};
use rustpass::text::chars_of;

fn sample_entries() -> Vec<PasswordEntry> {
    vec![
        PasswordEntry {
            name: String::from("mail"),
            id: String::from("id-1"),
            password: String::from("p4ssw0rd!"),
            metadata: Metadata {
                url: Some(String::from("https://mail.example")),
                notes: None,
            },
        },
        PasswordEntry {
            name: String::from("bank \"main\""),
            id: String::from("id-2"),
            password: String::from("back\\slash\npass"),
            metadata: Metadata {
                url: None,
                notes: Some(String::from("don't lose this")),
            },
        },
        PasswordEntry {
            name: String::from("caf\u{00e9} wifi"),
            id: String::from("id-3"),
            password: String::from("m\u{00fc}nchen\u{1F511}"),
            metadata: Metadata { url: None, notes: None },
        },
    ]
}

fn entries_equal(a: &[PasswordEntry], b: &[PasswordEntry]) -> bool {
    a.len() == b.len()
        && a.iter().zip(b.iter()).all(|(x, y)| {
            x.name == y.name
                && x.id == y.id
                && x.password == y.password
                && x.metadata.url == y.metadata.url
                && x.metadata.notes == y.metadata.notes
        })
}

fn parse_image(img: &[u8]) -> rustpass::models::EncryptedFile {
    let text = std::str::from_utf8(img).expect("vault image is UTF-8");
    let cs = chars_of(text);
    let (f, consumed) = parse_vault_file(&cs, 0).expect("vault image parses");
    assert_eq!(consumed, cs.len());
    f
}

#[test]
fn test_vault_round_trip() {
    let (empty, key, salt, _img) = create_password_file("correct-horse").unwrap();
    assert!(empty.is_empty());

    let entries = sample_entries();
    let img = save_passwords(&entries, &key, &salt).unwrap();
    let (loaded, key2, salt2) = load_passwords(&img, "correct-horse").unwrap();
    assert!(entries_equal(&entries, &loaded));
    assert_eq!(key2, key);
    assert_eq!(salt2, salt);
}

#[test]
fn test_wrong_password_rejected() {
    let (_, key, salt, _) = create_password_file("correct-horse").unwrap();
    let entries = sample_entries();
    let img = save_passwords(&entries, &key, &salt).unwrap();

    assert!(load_passwords(&img, "correct-horse").is_ok());
    let err = load_passwords(&img, "wrong").unwrap_err();
    assert_eq!(err, VaultError::Decryption);
}

#[test]
fn test_nonce_uniqueness() {
    let (_, key, salt, _) = create_password_file("correct-horse").unwrap();
    let entries = sample_entries();
    let mut nonces = Vec::new();
    for _ in 0..20 {
        let img = save_passwords(&entries, &key, &salt).unwrap();
        let f = parse_image(&img);
        nonces.push(f.nonce);
    }
    for i in 0..nonces.len() {
        for j in (i + 1)..nonces.len() {
            assert_ne!(nonces[i], nonces[j], "two saves reused a nonce");
        }
    }
}

#[test]
fn test_create_vault_scenario() {
    // Create the vault with the master password.
    let (entries, key, salt, img) = create_password_file("correct-horse").unwrap();
    assert!(entries.is_empty());

    // The file holds three base64 fields.
    let f = parse_image(&img);
    let salt_bytes = STANDARD.decode(&f.salt).expect("salt is base64");
    let nonce_bytes = STANDARD.decode(&f.nonce).expect("nonce is base64");
    STANDARD.decode(&f.encrypted_data).expect("data is base64");
    assert_eq!(salt_bytes, salt);
    assert_eq!(nonce_bytes.len(), 12);

    // Two saves of identical entries differ in ciphertext (fresh nonce).
    let one = sample_entries();
    let img_a = save_passwords(&one, &key, &salt).unwrap();
    let img_b = save_passwords(&one, &key, &salt).unwrap();
    let fa = parse_image(&img_a);
    let fb = parse_image(&img_b);
    assert_ne!(fa.encrypted_data, fb.encrypted_data);
    assert_ne!(fa.nonce, fb.nonce);

    // The right password returns the entries; the wrong one a
    // decryption error.
    let (loaded, _, _) = load_passwords(&img_a, "correct-horse").unwrap();
    assert!(entries_equal(&one, &loaded));
    assert_eq!(
        load_passwords(&img_a, "wrong").unwrap_err(),
        VaultError::Decryption
    );
}

#[test]
fn test_load_with_key() {
    let (_, key, salt, _) = create_password_file("correct-horse").unwrap();
    let entries = sample_entries();
    let img = save_passwords(&entries, &key, &salt).unwrap();

    let loaded = load_passwords_with_key(&img, &key, &salt).unwrap();
    assert!(entries_equal(&entries, &loaded));

    let other = [7u8; 32];
    assert_eq!(
        load_passwords_with_key(&img, &other, &salt).unwrap_err(),
        VaultError::Decryption
    );
}

#[test]
fn test_corrupt_file_rejected() {
    let (_, key, salt, _) = create_password_file("correct-horse").unwrap();
    let entries = sample_entries();
    let mut img = save_passwords(&entries, &key, &salt).unwrap();
    // Flip one byte of the payload region.
    let mid = img.len() / 2;
    img[mid] ^= 1;
    assert!(load_passwords(&img, "correct-horse").is_err());
}

#[test]
fn test_salt_too_short_is_key_derivation_error() {
    // Every short salt is a clean error, down to the empty one (the KDF's
    // salt conversion would fault on fewer than three bytes if they were
    // handed through).
    for salt in [&[][..], &[1][..], &[1, 2][..], &[1, 2, 3][..], &[1, 2, 3, 4, 5, 6, 7][..]] {
        let err = rustpass::crypto::derive_key("pw", salt).unwrap_err();
        assert_eq!(err, VaultError::KeyDerivation);
    }
    assert!(rustpass::crypto::derive_key("pw", &[9u8; 16]).is_ok());
    assert!(rustpass::crypto::derive_key("pw", &[9u8; 48]).is_ok());
    assert_eq!(
        rustpass::crypto::derive_key("pw", &[9u8; 49]).unwrap_err(),
        VaultError::KeyDerivation
    );
}

#[test]
fn test_short_salt_field_is_rejected_not_fatal() {
    // A vault file whose salt field decodes to 0 or 2 bytes must come back
    // as a key-derivation error, never a crash.
    let nonce_b64 = STANDARD.encode([0u8; 12]);
    let data_b64 = STANDARD.encode([0u8; 32]);
    for salt_b64 in [String::new(), STANDARD.encode([1u8, 2])] {
        let img = format!(
            "{{\"salt\":\"{}\",\"nonce\":\"{}\",\"encrypted_data\":\"{}\"}}",
            salt_b64, nonce_b64, data_b64
        );
        let err = load_passwords(img.as_bytes(), "pw").unwrap_err();
        assert_eq!(err, VaultError::KeyDerivation);
    }
}

#[test]
fn test_load_accepts_short_escapes_in_entries() {
    // Earlier vault writers escaped control characters as \n and friends;
    // the parser still takes them.
    let key = [9u8; 32];
    let payload =
        "[{\"name\":\"a\\nb\",\"id\":\"i\",\"password\":\"p\",\"metadata\":{\"url\":null,\"notes\":null}}]";
    let (nonce, ct) = rustpass::crypto::encrypt_data(payload.as_bytes(), &key).unwrap();
    let img = format!(
        "{{\"salt\":\"{}\",\"nonce\":\"{}\",\"encrypted_data\":\"{}\"}}",
        STANDARD.encode([7u8; 16]),
        STANDARD.encode(&nonce),
        STANDARD.encode(&ct)
    );
    let entries = load_passwords_with_key(img.as_bytes(), &key, &[]).unwrap();
    assert_eq!(entries.len(), 1);
    assert_eq!(entries[0].name, "a\nb");
}

#[test]
fn test_derive_key_deterministic() {
    let salt = [5u8; 16];
    let a = rustpass::crypto::derive_key("secret", &salt).unwrap();
    let b = rustpass::crypto::derive_key("secret", &salt).unwrap();
    assert_eq!(a, b);
    let c = rustpass::crypto::derive_key("other", &salt).unwrap();
    assert_ne!(a, c);
}

#[test]
fn test_encrypt_decrypt_data() {
    let key = [3u8; 32];
    let (nonce, ct) = rustpass::crypto::encrypt_data(b"hello vault", &key).unwrap();
    assert_eq!(nonce.len(), 12);
    assert_eq!(ct.len(), 11 + 16);
    let plain = rustpass::crypto::decrypt_data(&ct, &key, &nonce).unwrap();
    assert_eq!(plain, b"hello vault");
    let bad = rustpass::crypto::decrypt_data(&ct, &[4u8; 32], &nonce);
    assert_eq!(bad.unwrap_err(), VaultError::Decryption);
    // A nonce of the wrong length is rejected, not a panic.
    assert!(rustpass::crypto::decrypt_data(&ct, &key, &nonce[..5]).is_err());
}
