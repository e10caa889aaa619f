use backend::password::{
    hash_password, hash_password_with_salt, verify_password, PasswordError, ITERATIONS, KEY_LEN,
};
use base64::Engine;

fn expected_hash(password: &str, salt: &[u8], rounds: u32) -> String {
    let mut key = vec![0u8; KEY_LEN];
    pbkdf2::pbkdf2::<hmac::Hmac<sha2::Sha256>>(password.as_bytes(), salt, rounds, &mut key)
        .unwrap();
    let engine = base64::engine::general_purpose::STANDARD;
    format!("${}${}${}", rounds, engine.encode(salt), engine.encode(&key))
}

#[test]
fn hash_with_salt_has_stored_format() {
    let salt = b"salt-bytes-0123456789";
    let hashed = hash_password_with_salt("secret", salt);
    assert_eq!(hashed, expected_hash("secret", salt, ITERATIONS));
    assert!(hashed.starts_with("$20000$c2FsdC1ieXRlcy0wMTIzNDU2Nzg5$"));
}

#[test]
fn hash_then_verify_succeeds() {
    let hashed = hash_password("correct horse").unwrap();
    assert_eq!(verify_password("correct horse", &hashed).unwrap(), true);
}

#[test]
fn hash_with_salt_then_verify_succeeds() {
    let salt = [7u8; 256];
    let hashed = hash_password_with_salt("pässwörd", &salt);
    assert_eq!(verify_password("pässwörd", &hashed), Ok(true));
}

#[test]
fn wrong_password_does_not_verify() {
    let hashed = hash_password("alpha").unwrap();
    assert_eq!(verify_password("beta", &hashed), Ok(false));
}

#[test]
fn random_salts_differ() {
    let a = hash_password("same").unwrap();
    let b = hash_password("same").unwrap();
    assert_ne!(a, b);
    let parts: Vec<&str> = a.split('$').filter(|s| !s.is_empty()).collect();
    assert_eq!(parts.len(), 3);
    assert_eq!(parts[0], "20000");
    let salt = base64::engine::general_purpose::STANDARD.decode(parts[1]).unwrap();
    assert_eq!(salt.len(), KEY_LEN);
}

#[test]
fn verify_uses_stored_round_count() {
    let stored = expected_hash("pw", b"abc", 3);
    assert_eq!(verify_password("pw", &stored), Ok(true));
    assert_eq!(verify_password("pw2", &stored), Ok(false));
}

#[test]
fn verify_with_zero_rounds() {
    let stored = expected_hash("pw", b"abc", 0);
    assert_eq!(verify_password("pw", &stored), Ok(true));
}

#[test]
fn verify_tolerates_extra_separators() {
    let stored = expected_hash("pw", b"abc", 2);
    let doubled = stored.replace('$', "$$") + "$";
    assert_eq!(verify_password("pw", &doubled), Ok(true));
}

#[test]
fn verify_rejects_wrong_part_count() {
    assert_eq!(verify_password("pw", ""), Err(PasswordError::VerificationFailed));
    assert_eq!(verify_password("pw", "$1$YQ=="), Err(PasswordError::VerificationFailed));
    assert_eq!(
        verify_password("pw", "$1$YQ==$YQ==$YQ=="),
        Err(PasswordError::VerificationFailed)
    );
}

#[test]
fn verify_rejects_bad_round_count() {
    assert_eq!(verify_password("pw", "$x1$YQ==$YQ=="), Err(PasswordError::VerificationFailed));
    assert_eq!(
        verify_password("pw", "$4294967296$YQ==$YQ=="),
        Err(PasswordError::VerificationFailed)
    );
    assert_eq!(verify_password("pw", "$-1$YQ==$YQ=="), Err(PasswordError::VerificationFailed));
}

#[test]
fn verify_accepts_plus_signed_round_count() {
    let stored = expected_hash("pw", b"abc", 5).replacen("$5$", "$+5$", 1);
    assert_eq!(verify_password("pw", &stored), Ok(true));
}

#[test]
fn verify_rejects_bad_base64() {
    assert_eq!(verify_password("pw", "$1$not*base64$YQ=="), Err(PasswordError::VerificationFailed));
    assert_eq!(verify_password("pw", "$1$YQ==$YQ="), Err(PasswordError::VerificationFailed));
}

#[test]
fn verify_mismatched_key_is_false() {
    assert_eq!(verify_password("pw", "$1$YQ==$YQ=="), Ok(false));
}

#[test]
fn stored_form_length_and_alphabet() {
    let hashed = hash_password("length check").unwrap();
    assert_eq!(hashed.len(), 696);
    let with_salt = hash_password_with_salt("x", b"ab");
    assert_eq!(with_salt.len(), 8 + 4 + 344);
    for part in hashed.split('$').skip(2) {
        assert!(part
            .chars()
            .all(|c| c.is_ascii_alphanumeric() || c == '+' || c == '/' || c == '='));
    }
}

#[test]
fn stored_salt_decodes_back_and_salts_tell_hashes_apart() {
    let engine = base64::engine::general_purpose::STANDARD;
    let salt_a = [1u8, 2, 3, 4, 5];
    let salt_b = [1u8, 2, 3, 4, 6];
    let a = hash_password_with_salt("same", &salt_a);
    let b = hash_password_with_salt("same", &salt_b);
    let middle: Vec<&str> = a.split('$').filter(|p| !p.is_empty()).collect();
    assert_eq!(middle.len(), 3);
    assert_eq!(engine.decode(middle[1]).unwrap(), salt_a.to_vec());
    assert_ne!(a, b);
    assert_eq!(verify_password("same", &a), Ok(true));
    assert_eq!(verify_password("same", &b), Ok(true));
}

#[test]
fn two_hashes_of_one_password_differ_and_both_verify() {
    let first = hash_password("repeat").unwrap();
    let second = hash_password("repeat").unwrap();
    assert_ne!(first, second);
    assert_eq!(verify_password("repeat", &first), Ok(true));
    assert_eq!(verify_password("repeat", &second), Ok(true));
}
