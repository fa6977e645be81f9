use authgate::config::OAuthProviderConfig;
use authgate::errors::AuthError;
use authgate::model::OAuthProviderType;
use authgate::provider::{
    create_oauth_provider, player_names, unify_user_info, BlessingSkinProfile,
    BlessingSkinProvider, BlessingSkinUserInfo, ProviderClient,
};

fn skin_config() -> OAuthProviderConfig {
    OAuthProviderConfig {
        provider_type: OAuthProviderType::BlessingSkin("https://skin.example///".to_string()),
        client_id: "client one".to_string(),
        client_secret: "secret".to_string(),
        enabled: true,
        scopes: vec!["openid".to_string()],
    }
}

#[test]
fn authorize_url_encodes_and_trims() {
    let p = BlessingSkinProvider::new(skin_config(), "p1".to_string());
    let url = p.get_authorize_url("http://app.example/cb?x=1", "STATE");
    // trailing slashes of the base are trimmed, reserved characters are
    // percent-encoded, the state is embedded as given
    assert_eq!(
        url,
        "https://skin.example/oauth/authorize?client_id=client%20one&redirect_uri=http%3A%2F%2Fapp.example%2Fcb%3Fx%3D1&response_type=code&state=STATE&scope=openid"
    );
}

#[test]
fn authorize_url_joins_scopes_with_spaces() {
    let mut config = skin_config();
    config.scopes = vec!["a".to_string(), "b".to_string(), "c".to_string()];
    let p = BlessingSkinProvider::new(config, "p1".to_string());
    let url = p.get_authorize_url("http://app.example/cb", "s");
    assert!(url.ends_with("&scope=a b c"));
}

#[test]
fn exchange_request_lists_the_grant_fields() {
    let p = BlessingSkinProvider::new(skin_config(), "p1".to_string());
    let req = p.exchange_request("the-code", "http://app.example/cb");
    assert_eq!(req.url, "https://skin.example/oauth/token");
    let names: Vec<&str> = req.form.iter().map(|p| p.0.as_str()).collect();
    assert_eq!(
        names,
        vec!["grant_type", "client_id", "client_secret", "redirect_uri", "code"]
    );
    assert_eq!(req.form[4].1, "the-code");
}

#[test]
fn identity_endpoints_use_the_raw_site() {
    let p = BlessingSkinProvider::new(skin_config(), "p1".to_string());
    let (user, players, profiles) = p.identity_endpoints().unwrap();
    assert_eq!(user, "https://skin.example////api/user");
    assert_eq!(players, "https://skin.example////api/players");
    assert_eq!(
        profiles,
        "https://skin.example////api/yggdrasil/api/profiles/minecraft"
    );
}

#[test]
fn mismatched_kind_is_a_recoverable_fetch_error() {
    let mut config = skin_config();
    config.provider_type = OAuthProviderType::Microsoft;
    let p = BlessingSkinProvider::new(config, "p1".to_string());
    assert!(matches!(
        p.identity_endpoints(),
        Err(AuthError::IdentityFetchError(_))
    ));
}

#[test]
fn construction_dispatches_on_the_kind() {
    let client = create_oauth_provider(&skin_config(), "p1").unwrap();
    let ProviderClient::BlessingSkin(b) = client;
    assert_eq!(b.name, "p1");
    assert_eq!(b.config.client_id, "client one");

    let mut ms = skin_config();
    ms.provider_type = OAuthProviderType::Microsoft;
    let r = create_oauth_provider(&ms, "msacc");
    match r {
        Err(e) => {
            assert!(matches!(e, AuthError::NotImplemented));
            assert_eq!(e.http_status(), 500);
        }
        Ok(_) => panic!("an unimplemented kind must fail at construction"),
    }
}

#[test]
fn unify_renders_the_uid_in_decimal() {
    let u = unify_user_info(
        BlessingSkinUserInfo {
            uid: 12345,
            nickname: "Steve".to_string(),
            email: "s@example.com".to_string(),
        },
        "p1".to_string(),
        OAuthProviderType::Microsoft,
        vec![],
    );
    assert_eq!(u.uid, "12345");
    assert_eq!(u.nickname, "Steve");
    assert_eq!(u.email, "s@example.com");
    assert_eq!(u.provider, "p1");
}

#[test]
fn unify_uid_edges() {
    let zero = unify_user_info(
        BlessingSkinUserInfo { uid: 0, nickname: String::new(), email: String::new() },
        "p".to_string(),
        OAuthProviderType::Microsoft,
        vec![],
    );
    assert_eq!(zero.uid, "0");
    let max = unify_user_info(
        BlessingSkinUserInfo { uid: u64::MAX, nickname: String::new(), email: String::new() },
        "p".to_string(),
        OAuthProviderType::Microsoft,
        vec![],
    );
    assert_eq!(max.uid, "18446744073709551615");
}

fn profile_row(name: &str) -> BlessingSkinProfile {
    BlessingSkinProfile {
        pid: 1,
        uid: 2,
        name: name.to_string(),
        tid_skin: 0,
        tid_cape: 0,
        last_modified: "2024-01-01".to_string(),
    }
}

#[test]
fn player_names_keep_order() {
    let profs = vec![profile_row("Steve"), profile_row("Alex")];
    let names = player_names(&profs);
    assert_eq!(names, vec!["Steve".to_string(), "Alex".to_string()]);
}
