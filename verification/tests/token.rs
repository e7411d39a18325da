use trurl::token::{bearer_matches, constant_time_eq, generate, query_token_matches, to_hex_lower};

#[test]
fn generate_produces_64_hex_chars() {
    let token = generate().unwrap();
    assert_eq!(token.len(), 64);
    assert!(token.chars().all(|c| c.is_ascii_hexdigit()));
}

#[test]
fn generate_is_unique() {
    let a = generate().unwrap();
    let b = generate().unwrap();
    assert_ne!(a, b);
}

#[test]
fn constant_time_eq_equal() {
    assert!(constant_time_eq(b"abc", b"abc"));
    assert!(constant_time_eq(b"", b""));
}

#[test]
fn constant_time_eq_unequal_same_len() {
    assert!(!constant_time_eq(b"abc", b"abd"));
}

#[test]
fn constant_time_eq_different_len() {
    assert!(!constant_time_eq(b"abc", b"ab"));
    assert!(!constant_time_eq(b"ab", b"abc"));
}

#[test]
fn generate_is_lowercase_hex() {
    let token = generate().unwrap();
    assert!(token.chars().all(|c| c.is_ascii_digit() || ('a'..='f').contains(&c)));
}

#[test]
fn hex_encoding_of_known_bytes() {
    assert_eq!(to_hex_lower(&[0x00, 0x0f, 0xa5, 0xff]), "000fa5ff");
    assert_eq!(to_hex_lower(&[]), "");
}

#[test]
fn bearer_header_accepts_exact_token() {
    assert!(bearer_matches(Some("Bearer secret"), "secret"));
}

#[test]
fn bearer_header_rejects_wrong_token_or_scheme() {
    assert!(!bearer_matches(Some("Bearer secreT"), "secret"));
    assert!(!bearer_matches(Some("Bearer secret "), "secret"));
    assert!(!bearer_matches(Some("bearer secret"), "secret"));
    assert!(!bearer_matches(Some("secret"), "secret"));
    assert!(!bearer_matches(Some("Bearer"), ""));
    assert!(bearer_matches(Some("Bearer "), ""));
    assert!(!bearer_matches(None, "secret"));
}

#[test]
fn query_token_checked_exactly() {
    assert!(query_token_matches(Some("abc"), "abc"));
    assert!(!query_token_matches(Some("abd"), "abc"));
    assert!(!query_token_matches(None, "abc"));
}
