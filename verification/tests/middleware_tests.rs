use authgate::codec::sign;
use authgate::errors::AuthError;
use authgate::middleware::{authenticate, AuthDecision};
use authgate::model::{OAuthProviderType, TokenInformation, UnifiedUserInfo};
use authgate::wire::encode_credential;

const KEY: &str = "middleware-secret";

fn credential_expiring_at(expire_date: u64) -> String {
    let token = TokenInformation {
        access_token: "upstream".to_string(),
        provider_name: "p1".to_string(),
        expire_date,
        user_info: UnifiedUserInfo {
            uid: "7".to_string(),
            nickname: "Alex".to_string(),
            email: "alex@example.com".to_string(),
            provider: "p1".to_string(),
            provider_type: OAuthProviderType::BlessingSkin("https://skin.example".to_string()),
            profiles: vec![],
        },
    };
    sign(encode_credential(&token).as_str(), KEY)
}

#[test]
fn expired_credential_is_rejected_and_cookie_cleared() {
    let cookie = credential_expiring_at(1000);
    match authenticate(Some(&cookie), KEY, 1000) {
        AuthDecision::Rejected { error, clear_cookie } => {
            assert!(matches!(error, AuthError::SessionExpired));
            assert_eq!(error.http_status(), 401);
            assert!(clear_cookie);
        }
        AuthDecision::Authenticated(_) => panic!("an expired credential must be rejected"),
    }
}

#[test]
fn long_expired_credential_is_rejected() {
    let cookie = credential_expiring_at(10);
    assert!(matches!(
        authenticate(Some(&cookie), KEY, 999_999),
        AuthDecision::Rejected { error: AuthError::SessionExpired, clear_cookie: true }
    ));
}

#[test]
fn fresh_credential_authenticates_with_its_identity() {
    let cookie = credential_expiring_at(1000);
    match authenticate(Some(&cookie), KEY, 999) {
        AuthDecision::Authenticated(user) => {
            assert_eq!(user.uid, "7");
            assert_eq!(user.nickname, "Alex");
            assert_eq!(user.provider, "p1");
        }
        AuthDecision::Rejected { .. } => panic!("a fresh credential must authenticate"),
    }
}

#[test]
fn missing_cookie_is_401_without_clearing() {
    match authenticate(None, KEY, 0) {
        AuthDecision::Rejected { error, clear_cookie } => {
            assert!(matches!(error, AuthError::Unauthenticated));
            assert_eq!(error.http_status(), 401);
            assert_eq!(error.message(), "Not authenticated");
            assert!(!clear_cookie);
        }
        AuthDecision::Authenticated(_) => panic!("no cookie must not authenticate"),
    }
}

#[test]
fn garbage_cookie_is_rejected_and_cleared() {
    let cookie = "certainly not a token".to_string();
    match authenticate(Some(&cookie), KEY, 0) {
        AuthDecision::Rejected { error, clear_cookie } => {
            assert!(matches!(error, AuthError::TokenMalformed));
            assert!(clear_cookie);
        }
        AuthDecision::Authenticated(_) => panic!("garbage must not authenticate"),
    }
}

#[test]
fn foreign_key_cookie_is_rejected_and_cleared() {
    let token = TokenInformation {
        access_token: "upstream".to_string(),
        provider_name: "p1".to_string(),
        expire_date: u64::MAX,
        user_info: UnifiedUserInfo {
            uid: "7".to_string(),
            nickname: "Alex".to_string(),
            email: "".to_string(),
            provider: "p1".to_string(),
            provider_type: OAuthProviderType::Microsoft,
            profiles: vec![],
        },
    };
    let cookie = sign(encode_credential(&token).as_str(), "some-other-key");
    match authenticate(Some(&cookie), KEY, 0) {
        AuthDecision::Rejected { error, clear_cookie } => {
            assert!(matches!(error, AuthError::TokenSignatureInvalid));
            assert!(clear_cookie);
        }
        AuthDecision::Authenticated(_) => panic!("a foreign credential must not authenticate"),
    }
}

#[test]
fn tampered_cookie_is_rejected_and_cleared() {
    let cookie = credential_expiring_at(u64::MAX);
    let chars: Vec<char> = cookie.chars().collect();
    for i in 0..chars.len() {
        let mut forged_chars = chars.clone();
        forged_chars[i] = if forged_chars[i] != 'x' { 'x' } else { 'y' };
        let forged: String = forged_chars.into_iter().collect();
        match authenticate(Some(&forged), KEY, 0) {
            AuthDecision::Rejected { clear_cookie, .. } => assert!(clear_cookie),
            AuthDecision::Authenticated(_) => {
                panic!("a cookie flipped at position {} must not authenticate", i)
            }
        }
    }
}

#[test]
fn signed_non_credential_payload_is_malformed() {
    let cookie = sign("just some payload", KEY);
    assert!(matches!(
        authenticate(Some(&cookie), KEY, 0),
        AuthDecision::Rejected { error: AuthError::TokenMalformed, clear_cookie: true }
    ));
}
