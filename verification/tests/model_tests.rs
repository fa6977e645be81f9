use authgate::model::{parse_provider_type, OAuthProviderType};
use std::str::FromStr;

#[test]
fn parse_short_skin_prefix() {
    let k = parse_provider_type("bs=https://skin.example").unwrap();
    assert!(matches!(k, OAuthProviderType::BlessingSkin(u) if u == "https://skin.example"));
}

#[test]
fn parse_long_skin_prefix() {
    let k = parse_provider_type("blessingskin=https://littleskin.cn").unwrap();
    assert!(matches!(k, OAuthProviderType::BlessingSkin(u) if u == "https://littleskin.cn"));
}

#[test]
fn parse_dashed_skin_prefix() {
    let k = parse_provider_type("blessing-skin=https://x.example").unwrap();
    assert!(matches!(k, OAuthProviderType::BlessingSkin(u) if u == "https://x.example"));
}

#[test]
fn parse_microsoft_names() {
    assert!(matches!(
        parse_provider_type("microsoft").unwrap(),
        OAuthProviderType::Microsoft
    ));
    assert!(matches!(
        parse_provider_type("ms").unwrap(),
        OAuthProviderType::Microsoft
    ));
    assert!(matches!(
        parse_provider_type("MS").unwrap(),
        OAuthProviderType::Microsoft
    ));
    assert!(matches!(
        parse_provider_type("Microsoft").unwrap(),
        OAuthProviderType::Microsoft
    ));
}

#[test]
fn parse_unknown_name_is_rejected() {
    let e = parse_provider_type("ghost").unwrap_err();
    assert_eq!(e, "Unknown provider type: ghost");
}

#[test]
fn from_str_goes_through_the_parser() {
    let k = OAuthProviderType::from_str("bs=https://a.example").unwrap();
    assert!(matches!(k, OAuthProviderType::BlessingSkin(u) if u == "https://a.example"));
    assert!(OAuthProviderType::from_str("nope").is_err());
}

#[test]
fn display_names() {
    let skin = OAuthProviderType::BlessingSkin("https://skin.example".to_string());
    assert_eq!(skin.display_name(), "Blessing Skin (https://skin.example)");
    assert_eq!(OAuthProviderType::Microsoft.display_name(), "Microsoft");
}

#[test]
fn base_urls() {
    let skin = OAuthProviderType::BlessingSkin("https://skin.example".to_string());
    assert_eq!(skin.base_url(), "https://skin.example");
    assert_eq!(
        OAuthProviderType::Microsoft.base_url(),
        "https://login.microsoftonline.com"
    );
}

#[test]
fn kind_names() {
    let skin = OAuthProviderType::BlessingSkin("https://skin.example".to_string());
    assert_eq!(skin.kind_name(), "blessingskin=https://skin.example");
    assert_eq!(OAuthProviderType::Microsoft.kind_name(), "microsoft");
}

#[test]
fn kind_equality_compares_the_site() {
    let a = OAuthProviderType::BlessingSkin("https://a.example".to_string());
    let b = OAuthProviderType::BlessingSkin("https://a.example".to_string());
    let c = OAuthProviderType::BlessingSkin("https://c.example".to_string());
    assert!(a == b);
    assert!(a != c);
    assert!(a != OAuthProviderType::Microsoft);
    assert!(OAuthProviderType::Microsoft == OAuthProviderType::Microsoft);
}
