use authgate::codec::{sign, verify};
use authgate::config::{Config, OAuthProviderConfig, OAuthProvidersConfig, ServerConfig};
use authgate::errors::AuthError;
use authgate::flow::{callback_begin, callback_finish, list_providers, login_with_nonce, logout};
use authgate::middleware::{authenticate, AuthDecision};
use authgate::model::{AuthRequest, OAuthProviderType, UnifiedUserInfo};

const KEY: &str = "test-secret";

fn test_config() -> Config {
    Config {
        server: ServerConfig { host: "127.0.0.1".to_string(), port: 3000 },
        oauth: OAuthProvidersConfig {
            prefix_url: "http://127.0.0.1:3000".to_string(),
            secret_string: KEY.to_string(),
            providers: vec![
                (
                    "p1".to_string(),
                    OAuthProviderConfig {
                        provider_type: OAuthProviderType::BlessingSkin(
                            "https://skin.example/".to_string(),
                        ),
                        client_id: "X".to_string(),
                        client_secret: "sekrit".to_string(),
                        enabled: true,
                        scopes: vec!["openid".to_string(), "profile".to_string()],
                    },
                ),
                (
                    "p2".to_string(),
                    OAuthProviderConfig {
                        provider_type: OAuthProviderType::BlessingSkin(
                            "https://other.example".to_string(),
                        ),
                        client_id: "Y".to_string(),
                        client_secret: "hush".to_string(),
                        enabled: false,
                        scopes: vec![],
                    },
                ),
                (
                    "msacc".to_string(),
                    OAuthProviderConfig {
                        provider_type: OAuthProviderType::Microsoft,
                        client_id: "Z".to_string(),
                        client_secret: "quiet".to_string(),
                        enabled: true,
                        scopes: vec![],
                    },
                ),
            ],
        },
    }
}

fn nonce() -> Vec<u8> {
    (0u8..16u8).collect()
}

fn valid_state() -> String {
    // thirty-two hexadecimal digits: the signed form of a 16-byte nonce
    sign("000102030405060708090a0b0c0d0e0f", KEY)
}

fn sample_identity() -> UnifiedUserInfo {
    UnifiedUserInfo {
        uid: "42".to_string(),
        nickname: "Steve".to_string(),
        email: "steve@example.com".to_string(),
        provider: "p1".to_string(),
        provider_type: OAuthProviderType::BlessingSkin("https://skin.example/".to_string()),
        profiles: vec![],
    }
}

#[test]
fn disabled_provider_is_403_and_no_redirect() {
    let r = login_with_nonce(&test_config(), "p2", &nonce());
    match r {
        Err(e) => {
            assert!(matches!(&e, AuthError::ProviderDisabled(n) if n == "p2"));
            assert_eq!(e.http_status(), 403);
            assert_eq!(e.message(), "Provider p2 is disabled");
        }
        Ok(_) => panic!("a disabled provider must not issue a redirect"),
    }
}

#[test]
fn unknown_provider_login_is_404() {
    let r = login_with_nonce(&test_config(), "ghost", &nonce());
    match r {
        Err(e) => {
            assert!(matches!(&e, AuthError::ProviderNotFound(n) if n == "ghost"));
            assert_eq!(e.http_status(), 404);
            assert_eq!(e.message(), "Provider ghost not found");
        }
        Ok(_) => panic!("an unknown provider must not issue a redirect"),
    }
}

#[test]
fn unknown_provider_callback_is_404() {
    let state = valid_state();
    let r = callback_begin(
        &test_config(),
        "ghost",
        &AuthRequest { code: "somecode".to_string(), state },
    );
    match r {
        Err(e) => {
            assert!(matches!(&e, AuthError::ProviderNotFound(n) if n == "ghost"));
            assert_eq!(e.http_status(), 404);
        }
        Ok(_) => panic!("an unknown provider must not reach the exchange"),
    }
}

#[test]
fn unimplemented_kind_fails_at_construction() {
    let r = login_with_nonce(&test_config(), "msacc", &nonce());
    assert!(matches!(r, Err(AuthError::NotImplemented)));
}

#[test]
fn state_signed_with_other_key_never_reaches_exchange() {
    let foreign = sign("000102030405060708090a0b0c0d0e0f", "some-other-key");
    let r = callback_begin(
        &test_config(),
        "p1",
        &AuthRequest { code: "somecode".to_string(), state: foreign },
    );
    match r {
        Err(e) => {
            assert!(matches!(e, AuthError::StateVerificationFailed));
            assert_eq!(e.http_status(), 401);
        }
        Ok(_) => panic!("a foreign state must not produce an exchange request"),
    }
}

#[test]
fn corrupted_state_never_reaches_exchange() {
    let state = valid_state();
    let chars: Vec<char> = state.chars().collect();
    let mut forged = chars.clone();
    forged[0] = if forged[0] != 'x' { 'x' } else { 'y' };
    let forged: String = forged.into_iter().collect();
    let r = callback_begin(
        &test_config(),
        "p1",
        &AuthRequest { code: "somecode".to_string(), state: forged },
    );
    assert!(matches!(r, Err(AuthError::StateVerificationFailed)));
}

#[test]
fn signed_but_shapeless_state_is_rejected() {
    // verifies under the key, but is not the signed form of a nonce
    let odd = sign("not-a-nonce", KEY);
    let r = callback_begin(
        &test_config(),
        "p1",
        &AuthRequest { code: "somecode".to_string(), state: odd },
    );
    assert!(matches!(r, Err(AuthError::StateVerificationFailed)));
}

#[test]
fn end_to_end_happy_path() {
    let config = test_config();

    // login: the redirect embeds the client id and a fresh signed state
    let url = login_with_nonce(&config, "p1", &nonce()).unwrap();
    assert!(url.starts_with("https://skin.example/oauth/authorize?client_id=X&"));
    assert!(url.contains("client_id=X"));
    assert!(url.contains(
        "&redirect_uri=http%3A%2F%2F127.0.0.1%3A3000%2Fapi%2Foauth%2Fp1%2Fcallback"
    ));
    assert!(url.contains("&scope=openid profile"));
    let state_start = url.find("&state=").unwrap() + "&state=".len();
    let state_end = url[state_start..].find('&').unwrap() + state_start;
    let state = &url[state_start..state_end];
    let payload = verify(state, KEY).unwrap();
    assert_eq!(payload, "000102030405060708090a0b0c0d0e0f");

    // callback, first phase: the state is accepted and the exchange is
    // fully described
    let req = callback_begin(
        &config,
        "p1",
        &AuthRequest { code: "grant-code".to_string(), state: state.to_string() },
    )
    .unwrap();
    assert_eq!(req.url, "https://skin.example/oauth/token");
    assert_eq!(req.form.len(), 5);
    assert_eq!(req.form[0], ("grant_type".to_string(), "authorization_code".to_string()));
    assert_eq!(req.form[1], ("client_id".to_string(), "X".to_string()));
    assert_eq!(req.form[2], ("client_secret".to_string(), "sekrit".to_string()));
    assert_eq!(
        req.form[3],
        (
            "redirect_uri".to_string(),
            "http://127.0.0.1:3000/api/oauth/p1/callback".to_string()
        )
    );
    assert_eq!(req.form[4], ("code".to_string(), "grant-code".to_string()));

    // callback, last phase: a credential expiring ttl after now
    let issue = callback_finish(
        "p1".to_string(),
        "upstream-token".to_string(),
        3600,
        1_000_000,
        sample_identity(),
        KEY,
    );
    assert_eq!(issue.expire_date, 1_003_600);
    assert_eq!(issue.redirect_to, "/");

    // the cookie authenticates while fresh and carries the identity
    let cookie = issue.cookie_value.clone();
    match authenticate(Some(&cookie), KEY, 1_000_001) {
        AuthDecision::Authenticated(user) => {
            assert_eq!(user.provider, "p1");
            assert_eq!(user.uid, "42");
            assert_eq!(user.nickname, "Steve");
        }
        AuthDecision::Rejected { .. } => panic!("a fresh credential must authenticate"),
    }
}

#[test]
fn logout_is_idempotent() {
    let first = logout();
    assert!(first.clear_cookie);
    assert_eq!(first.redirect_to, "/");
    let second = logout();
    assert!(second.clear_cookie);
    assert_eq!(second.redirect_to, "/");
}

#[test]
fn listing_shows_only_enabled_providers() {
    let entries = list_providers(&test_config());
    assert_eq!(entries.len(), 2);
    assert_eq!(entries[0].name, "p1");
    assert_eq!(entries[0].kind, "blessingskin=https://skin.example/");
    assert_eq!(entries[0].display_name, "Blessing Skin (https://skin.example/)");
    assert_eq!(entries[0].login_url, "/api/oauth/p1/login");
    assert_eq!(entries[1].name, "msacc");
    assert_eq!(entries[1].kind, "microsoft");
    assert_eq!(entries[1].display_name, "Microsoft");
    assert_eq!(entries[1].login_url, "/api/oauth/msacc/login");
}

#[test]
fn redirect_uri_is_prefix_name_callback() {
    let uri = test_config().get_redirect_uri("p1");
    assert_eq!(uri, "http://127.0.0.1:3000/api/oauth/p1/callback");
}

#[test]
fn provider_lookup_finds_and_misses() {
    let config = test_config();
    let c = config.get_provider("p1").unwrap();
    assert_eq!(c.client_id, "X");
    assert!(config.get_provider("ghost").is_none());
}

#[test]
fn default_config_values() {
    let d = Config::default_config();
    assert_eq!(d.server.host, "127.0.0.1");
    assert_eq!(d.server.port, 3000);
    assert_eq!(d.oauth.prefix_url, "http://127.0.0.1:3000");
    assert_eq!(d.oauth.secret_string, "your-secret-here-change-this-in-production");
    assert_eq!(d.oauth.providers.len(), 2);
    assert_eq!(d.oauth.providers[0].0, "littleskin");
    assert!(d.oauth.providers[0].1.enabled);
    assert!(matches!(
        &d.oauth.providers[0].1.provider_type,
        OAuthProviderType::BlessingSkin(u) if u == "https://littleskin.cn"
    ));
    assert_eq!(d.oauth.providers[1].0, "microsoft");
    assert!(!d.oauth.providers[1].1.enabled);
}
