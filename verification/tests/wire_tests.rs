use authgate::model::{
    OAuthProviderType, TokenInformation, UnifiedUserInfo, YggdrasilKVPair, YggdrasilProfile,
};
use authgate::wire::{decode_credential, encode_credential};

fn sample_credential() -> TokenInformation {
    TokenInformation {
        access_token: "upstream-token-123".to_string(),
        provider_name: "littleskin".to_string(),
        expire_date: 1234567890,
        user_info: UnifiedUserInfo {
            uid: "42".to_string(),
            nickname: "Steve".to_string(),
            email: "steve@example.com".to_string(),
            provider: "littleskin".to_string(),
            provider_type: OAuthProviderType::BlessingSkin("https://littleskin.cn".to_string()),
            profiles: vec![
                YggdrasilProfile {
                    id: "profile-1".to_string(),
                    name: "Steve".to_string(),
                    properties: vec![
                        YggdrasilKVPair {
                            name: "textures".to_string(),
                            value: "base64stuff".to_string(),
                        },
                        YggdrasilKVPair {
                            name: "uploadableTextures".to_string(),
                            value: "skin,cape".to_string(),
                        },
                    ],
                },
                YggdrasilProfile {
                    id: "profile-2".to_string(),
                    name: "Alex".to_string(),
                    properties: vec![],
                },
            ],
        },
    }
}

#[test]
fn credential_round_trip() {
    let t = sample_credential();
    let encoded = encode_credential(&t);
    let back = decode_credential(encoded.as_str()).unwrap();
    assert_eq!(back.access_token, t.access_token);
    assert_eq!(back.provider_name, t.provider_name);
    assert_eq!(back.expire_date, t.expire_date);
    assert_eq!(back.user_info.uid, t.user_info.uid);
    assert_eq!(back.user_info.nickname, t.user_info.nickname);
    assert_eq!(back.user_info.email, t.user_info.email);
    assert_eq!(back.user_info.provider, t.user_info.provider);
    assert!(back.user_info.provider_type == t.user_info.provider_type);
    assert_eq!(back.user_info.profiles.len(), 2);
    assert_eq!(back.user_info.profiles[0].id, "profile-1");
    assert_eq!(back.user_info.profiles[0].name, "Steve");
    assert_eq!(back.user_info.profiles[0].properties.len(), 2);
    assert_eq!(back.user_info.profiles[0].properties[0].name, "textures");
    assert_eq!(back.user_info.profiles[0].properties[0].value, "base64stuff");
    assert_eq!(
        back.user_info.profiles[0].properties[1].name,
        "uploadableTextures"
    );
    assert_eq!(back.user_info.profiles[1].id, "profile-2");
    assert_eq!(back.user_info.profiles[1].name, "Alex");
    assert_eq!(back.user_info.profiles[1].properties.len(), 0);
}

#[test]
fn credential_round_trip_microsoft_kind() {
    let mut t = sample_credential();
    t.user_info.provider_type = OAuthProviderType::Microsoft;
    t.user_info.profiles = vec![];
    let encoded = encode_credential(&t);
    let back = decode_credential(encoded.as_str()).unwrap();
    assert!(back.user_info.provider_type == OAuthProviderType::Microsoft);
    assert_eq!(back.user_info.profiles.len(), 0);
}

#[test]
fn credential_round_trip_unicode_fields() {
    let mut t = sample_credential();
    t.user_info.nickname = "玩家一号".to_string();
    let encoded = encode_credential(&t);
    let back = decode_credential(encoded.as_str()).unwrap();
    assert_eq!(back.user_info.nickname, "玩家一号");
}

#[test]
fn truncated_wire_form_is_rejected() {
    let encoded = encode_credential(&sample_credential());
    let n = encoded.chars().count();
    let shorter: String = encoded.chars().take(n - 1).collect();
    assert!(decode_credential(shorter.as_str()).is_none());
}

#[test]
fn trailing_junk_is_rejected() {
    let mut encoded = encode_credential(&sample_credential());
    encoded.push('0');
    assert!(decode_credential(encoded.as_str()).is_none());
}

#[test]
fn empty_wire_form_is_rejected() {
    assert!(decode_credential("").is_none());
    assert!(decode_credential("not a credential").is_none());
}
