use authgate::codec::{sign, verify, TokenError};

#[test]
fn sign_verify_round_trip() {
    let token = sign("hello world", "secret-key");
    let back = verify(token.as_str(), "secret-key").unwrap();
    assert_eq!(back, "hello world");
}

#[test]
fn sign_verify_round_trip_empty_payload() {
    let token = sign("", "secret-key");
    let back = verify(token.as_str(), "secret-key").unwrap();
    assert_eq!(back, "");
}

#[test]
fn sign_verify_round_trip_unicode_payload() {
    let token = sign("用户信息 ✓", "key");
    let back = verify(token.as_str(), "key").unwrap();
    assert_eq!(back, "用户信息 ✓");
}

#[test]
fn sign_is_deterministic() {
    assert_eq!(sign("payload", "key"), sign("payload", "key"));
}

#[test]
fn token_is_tag_dot_payload() {
    let token = sign("abc", "key");
    let chars: Vec<char> = token.chars().collect();
    // an HMAC-SHA-256 tag is 32 bytes, so 64 hexadecimal digits
    assert_eq!(chars.len(), 64 + 1 + 3);
    assert_eq!(chars[64], '.');
    for i in 0..64 {
        let c = chars[i];
        assert!(('0' <= c && c <= '9') || ('a' <= c && c <= 'f'));
    }
    assert_eq!(&token[65..], "abc");
}

#[test]
fn keys_give_different_tags() {
    // would fail if the signing wrapper ignored its key input
    let one = sign("payload", "key-one");
    let two = sign("payload", "key-two");
    assert_ne!(one, two);
}

#[test]
fn verify_rejects_wrong_key() {
    let token = sign("payload", "key-one");
    assert!(matches!(
        verify(token.as_str(), "key-two"),
        Err(TokenError::SignatureInvalid)
    ));
}

#[test]
fn verify_rejects_missing_dot() {
    assert!(matches!(
        verify("deadbeef", "key"),
        Err(TokenError::Malformed)
    ));
}

#[test]
fn verify_rejects_odd_tag_length() {
    assert!(matches!(
        verify("abc.payload", "key"),
        Err(TokenError::Malformed)
    ));
}

#[test]
fn verify_rejects_non_hex_tag() {
    assert!(matches!(
        verify("zz.payload", "key"),
        Err(TokenError::Malformed)
    ));
}

#[test]
fn verify_rejects_uppercase_tag() {
    let token = sign("payload", "key");
    let upper: String = token
        .chars()
        .map(|c| if c.is_ascii_lowercase() { c.to_ascii_uppercase() } else { c })
        .collect();
    assert!(verify(upper.as_str(), "key").is_err());
}

#[test]
fn verify_rejects_empty_input() {
    assert!(matches!(verify("", "key"), Err(TokenError::Malformed)));
}

#[test]
fn every_single_character_flip_is_rejected() {
    let token = sign("tamper me if you can", "key");
    let chars: Vec<char> = token.chars().collect();
    for i in 0..chars.len() {
        let mut forged_chars = chars.clone();
        forged_chars[i] = if forged_chars[i] != 'x' { 'x' } else { 'y' };
        let forged: String = forged_chars.into_iter().collect();
        assert!(
            verify(forged.as_str(), "key").is_err(),
            "a flip at position {} was accepted",
            i
        );
    }
}

#[test]
fn truncated_token_is_rejected() {
    let token = sign("payload", "key");
    let shorter: String = token.chars().take(token.chars().count() - 1).collect();
    assert!(verify(shorter.as_str(), "key").is_err());
}
