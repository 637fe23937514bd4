use rustpass::transform::{codesmith28, decode_codesmith28, fibbil_hash, fibbil_unhash};

#[test]
fn test_fibbil_encryption_decryption() {
    let test_cases = vec![
        "Hello, World!",
        "",
        "12345",
        "!@#$%^&*()",
        "This is a longer test string with various characters: 123!@",
    ];

    for original in test_cases {
        let encrypted = fibbil_hash(original);
        let decrypted = fibbil_unhash(&encrypted);
        assert_eq!(
            decrypted, original,
            "Fibbil encryption/decryption failed for: {}",
            original
        );
    }
}

#[test]
fn test_codesmith28_encryption_decryption() {
    let test_cases = vec!["rustlang", "", "12345", "aaaaaa", "This is a test", "!@#$%"];

    for original in test_cases {
        let encrypted = codesmith28(original);
        let decrypted = decode_codesmith28(&encrypted);
        assert_eq!(
            decrypted, original,
            "Codesmith28 encryption/decryption failed for: {}",
            original
        );
    }
}

#[test]
fn test_codesmith28_invalid_input() {
    assert_eq!(decode_codesmith28(""), "");
    assert_eq!(decode_codesmith28("invalid"), "");
    assert_eq!(decode_codesmith28("no|separator"), "");
    assert_eq!(decode_codesmith28("a|12"), "");
}

#[test]
fn test_fibbil_hash_concrete() {
    // 'a' (97) shifts by 233 at position 0: (97 + 233) % 128 = 74 = 'J';
    // 'b' (98) shifts by 8 at position 1: 106 = 'j'.
    assert_eq!(fibbil_hash("ab"), "Jj");
    assert_ne!(fibbil_hash("abc"), "abc");
}

#[test]
fn test_codesmith28_concrete() {
    // 'b' sorts before 'c': characters sorted, positions zero-padded.
    assert_eq!(codesmith28("cb"), "bc|002001");
    assert_eq!(codesmith28("a"), "a|001");
    assert_eq!(decode_codesmith28("bc|002001"), "cb");
}
