use rlms::credentials::{generate_salt, hash_password, is_safe_password, is_valid_name, verify_hash};

#[test]
fn salt_has_requested_length_and_printable_chars() {
    for n in [0usize, 1, 25, 100] {
        let s = generate_salt(n);
        assert_eq!(s.chars().count(), n);
        assert!(s.chars().all(|c| ('!'..='~').contains(&c)));
        assert!(!s.contains('\n') && !s.contains('\r') && !s.contains('\t') && !s.contains(' '));
    }
}

#[test]
fn two_salts_differ() {
    let a = generate_salt(25);
    let b = generate_salt(25);
    assert_ne!(a, b);
}

#[test]
fn hash_then_verify_round_trips() {
    let h = hash_password("Secret#123", "abcDEF!").unwrap();
    assert!(verify_hash("Secret#123abcDEF!", &h));
}

#[test]
fn hash_rejects_other_password() {
    let h = hash_password("Secret#123", "abcDEF!").unwrap();
    assert!(!verify_hash("Secret#124abcDEF!", &h));
    assert!(!verify_hash("Secret#123", &h));
}

#[test]
fn hash_is_not_the_input() {
    let h = hash_password("Secret#123", "salt").unwrap();
    assert_ne!(h, "Secret#123salt");
    assert!(h.starts_with("$2"));
}

#[test]
fn malformed_hash_does_not_verify() {
    assert!(!verify_hash("anything", "not a bcrypt hash"));
    assert!(!verify_hash("anything", ""));
}

#[test]
fn safe_password_policy() {
    assert!(is_safe_password("Abcdef1!"));
    assert!(!is_safe_password("Abcde1!"));
    assert!(!is_safe_password("abcdef1!"));
    assert!(!is_safe_password("ABCDEF1!"));
    assert!(!is_safe_password("Abcdefg!"));
    assert!(!is_safe_password("Abcdefg1"));
    assert!(!is_safe_password(""));
}

#[test]
fn password_length_counts_characters() {
    // seven characters, more than eight bytes
    assert!(!is_safe_password("Äbcdé1!"));
    assert!(is_safe_password("Äbcdéf1!"));
}

#[test]
fn valid_names() {
    assert!(is_valid_name("Anne-Marie"));
    assert!(is_valid_name("Mary Jane"));
    assert!(is_valid_name("Zoë"));
    assert!(!is_valid_name(""));
    assert!(!is_valid_name("R2D2"));
    assert!(!is_valid_name("O'Neil"));
}
