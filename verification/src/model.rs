//! The data model: provider kinds, the normalized identity shape, and the
//! session credential that the token codec signs.

use vstd::prelude::*;
use vstd::string::*;
use crate::text::{find_char, chars_of_str, chars_eq};

verus! {

/// The closed set of provider kinds. A Blessing Skin site carries its base
/// URL; a Microsoft account needs no parameter.
#[derive(Debug, Clone)]
pub enum OAuthProviderType {
    BlessingSkin(String),
    Microsoft,
}

/// The mathematical shape of a provider kind.
pub enum ProviderTypeView {
    BlessingSkin(Seq<char>),
    Microsoft,
}

impl View for OAuthProviderType {
    type V = ProviderTypeView;

    open spec fn view(&self) -> ProviderTypeView {
        match self {
            OAuthProviderType::BlessingSkin(url) => ProviderTypeView::BlessingSkin(url@),
            OAuthProviderType::Microsoft => ProviderTypeView::Microsoft,
        }
    }
}

impl PartialEq for OAuthProviderType {
    fn eq(&self, other: &Self) -> (r: bool) {
        match (self, other) {
            (OAuthProviderType::BlessingSkin(a), OAuthProviderType::BlessingSkin(b)) => *a == *b,
            (OAuthProviderType::Microsoft, OAuthProviderType::Microsoft) => true,
            _ => false,
        }
    }
}

impl vstd::std_specs::cmp::PartialEqSpecImpl for OAuthProviderType {
    open spec fn obeys_eq_spec() -> bool {
        true
    }

    open spec fn eq_spec(&self, other: &Self) -> bool {
        self@ == other@
    }
}

/// The display name of a provider kind.
pub open spec fn display_name_spec(k: ProviderTypeView) -> Seq<char> {
    match k {
        ProviderTypeView::BlessingSkin(url) => "Blessing Skin ("@ + url + ")"@,
        ProviderTypeView::Microsoft => "Microsoft"@,
    }
}

/// The base URL of a provider kind's endpoints.
pub open spec fn base_url_spec(k: ProviderTypeView) -> Seq<char> {
    match k {
        ProviderTypeView::BlessingSkin(url) => url,
        ProviderTypeView::Microsoft => "https://login.microsoftonline.com"@,
    }
}

/// The serialized name of a provider kind, as configuration writes it.
pub open spec fn kind_name_spec(k: ProviderTypeView) -> Seq<char> {
    match k {
        ProviderTypeView::BlessingSkin(url) => "blessingskin="@ + url,
        ProviderTypeView::Microsoft => "microsoft"@,
    }
}

impl OAuthProviderType {
    /// The name shown to users for this provider kind.
    pub fn display_name(&self) -> (r: String)
        ensures
            r@ == display_name_spec(self@),
    {
        match self {
            OAuthProviderType::BlessingSkin(url) => {
                let mut r = "Blessing Skin (".to_owned();
                r.append(url.as_str());
                r.append(")");
                r
            },
            OAuthProviderType::Microsoft => "Microsoft".to_owned(),
        }
    }

    /// The base URL under which this kind's OAuth endpoints live.
    pub fn base_url(&self) -> (r: &str)
        ensures
            r@ == base_url_spec(self@),
    {
        match self {
            OAuthProviderType::BlessingSkin(url) => url.as_str(),
            OAuthProviderType::Microsoft => "https://login.microsoftonline.com",
        }
    }

    /// The serialized name of this provider kind.
    pub fn kind_name(&self) -> (r: String)
        ensures
            r@ == kind_name_spec(self@),
    {
        match self {
            OAuthProviderType::BlessingSkin(url) => {
                let mut r = "blessingskin=".to_owned();
                r.append(url.as_str());
                r
            },
            OAuthProviderType::Microsoft => "microsoft".to_owned(),
        }
    }
}

/// Lowercases one character, over the ASCII letters only.
pub open spec fn ascii_lower_char(c: char) -> char {
    if 'A' <= c && c <= 'Z' {
        ((c as u8) + 32) as char
    } else {
        c
    }
}

/// Lowercases the ASCII letters of a character sequence.
pub open spec fn ascii_lower(s: Seq<char>) -> Seq<char> {
    Seq::new(s.len(), |i: int| ascii_lower_char(s[i]))
}

/// Whether `s` starts with `p`.
pub open spec fn starts_with(s: Seq<char>, p: Seq<char>) -> bool {
    s.len() >= p.len() && s.subrange(0, p.len() as int) == p
}

/// Whether `s` names the Blessing Skin kind with a site parameter.
pub open spec fn has_skin_prefix(s: Seq<char>) -> bool {
    starts_with(s, "bs="@) || starts_with(s, "blessingskin="@) || starts_with(
        s,
        "blessing-skin="@,
    )
}

/// Whether `s` names the Microsoft kind, up to ASCII case.
pub open spec fn is_microsoft_name(s: Seq<char>) -> bool {
    ascii_lower(s) == "microsoft"@ || ascii_lower(s) == "ms"@
}

/// Lowercases the ASCII letters of every character of `s`.
fn ascii_lower_chars(s: &Vec<char>) -> (r: Vec<char>)
    ensures
        r@ == ascii_lower(s@),
{
    let mut r: Vec<char> = Vec::new();
    let n = s.len();
    let mut i: usize = 0;
    while i < n
        invariant
            i <= n,
            n == s@.len(),
            r@ =~= ascii_lower(s@).subrange(0, i as int),
        decreases n - i,
    {
        let c = s[i];
        if 'A' <= c && c <= 'Z' {
            r.push(((c as u8) + 32) as char);
        } else {
            r.push(c);
        }
        proof {
            assert(ascii_lower(s@).subrange(0, i + 1 as int) =~= ascii_lower(s@).subrange(
                0,
                i as int,
            ).push(ascii_lower_char(s@[i as int])));
        }
        i = i + 1;
    }
    proof {
        assert(ascii_lower(s@).subrange(0, n as int) =~= ascii_lower(s@));
    }
    r
}

/// Whether `v` starts with the characters of `p`.
fn chars_start_with(v: &Vec<char>, p: &Vec<char>) -> (r: bool)
    ensures
        r == starts_with(v@, p@),
{
    if v.len() < p.len() {
        return false;
    }
    let n = p.len();
    let mut i: usize = 0;
    while i < n
        invariant
            i <= n,
            n == p@.len() <= v@.len(),
            forall|j: int| 0 <= j < i ==> v@[j] == p@[j],
        decreases n - i,
    {
        if v[i] != p[i] {
            proof {
                assert(v@.subrange(0, p@.len() as int)[i as int] != p@[i as int]);
            }
            return false;
        }
        i = i + 1;
    }
    proof {
        assert(v@.subrange(0, p@.len() as int) =~= p@);
    }
    true
}

/// Parses the serialized name of a provider kind: a Blessing Skin prefix
/// with its site after the equals sign, or "microsoft" / "ms" up to ASCII
/// case; anything else is rejected with a message naming the input.
pub fn parse_provider_type(s: &str) -> (r: Result<OAuthProviderType, String>)
    ensures
        has_skin_prefix(s@) ==> ({
            &&& r is Ok
            &&& r->Ok_0 matches OAuthProviderType::BlessingSkin(url) && find_char(s@, '=') matches
                Option::Some(e) && url@ == s@.subrange(e + 1, s@.len() as int)
        }),
        !has_skin_prefix(s@) && is_microsoft_name(s@) ==> (r matches Ok(k) && k@
            == ProviderTypeView::Microsoft),
        !has_skin_prefix(s@) && !is_microsoft_name(s@) ==> (r matches Err(m) && m@
            == "Unknown provider type: "@ + s@),
{
    let cs = chars_of_str(s);
    let p_bs = chars_of_str("bs=");
    let p_long = chars_of_str("blessingskin=");
    let p_dash = chars_of_str("blessing-skin=");
    if chars_start_with(&cs, &p_bs) || chars_start_with(&cs, &p_long) || chars_start_with(
        &cs,
        &p_dash,
    ) {
        let e = match crate::text::find_char_at(&cs, '=') {
            Some(e) => e,
            None => {
                // each accepted prefix holds an equals sign, so one is
                // always found
                proof {
                    crate::text::lemma_find_char_props(s@, '=');
                    reveal_strlit("bs=");
                    reveal_strlit("blessingskin=");
                    reveal_strlit("blessing-skin=");
                    if starts_with(s@, "bs="@) {
                        assert(s@.subrange(0, "bs="@.len() as int) == "bs="@);
                        assert(s@.subrange(0, 3)[2] == s@[2]);
                        assert(s@[2] == '=');
                    } else if starts_with(s@, "blessingskin="@) {
                        assert(s@.subrange(0, "blessingskin="@.len() as int)
                            == "blessingskin="@);
                        assert(s@.subrange(0, 13)[12] == s@[12]);
                        assert(s@[12] == '=');
                    } else {
                        assert(s@.subrange(0, "blessing-skin="@.len() as int)
                            == "blessing-skin="@);
                        assert(s@.subrange(0, 14)[13] == s@[13]);
                        assert(s@[13] == '=');
                    }
                    assert(false);
                }
                return Err("Unknown provider type: ".to_owned());
            },
        };
        proof {
            crate::text::lemma_find_char_props(s@, '=');
        }
        let n = s.unicode_len();
        let url = s.substring_char(e + 1, n);
        return Ok(OAuthProviderType::BlessingSkin(url.to_owned()));
    }
    let lowered = ascii_lower_chars(&cs);
    let ms_long = chars_of_str("microsoft");
    let ms_short = chars_of_str("ms");
    if chars_eq(&lowered, &ms_long) || chars_eq(&lowered, &ms_short) {
        return Ok(OAuthProviderType::Microsoft);
    }
    let mut m = "Unknown provider type: ".to_owned();
    m.append(s);
    Err(m)
}

/// One name/value property of a player profile.
#[derive(Debug, Clone)]
pub struct YggdrasilKVPair {
    pub name: String,
    pub value: String,
}

/// The mathematical shape of a profile property.
pub struct KVPairView {
    pub name: Seq<char>,
    pub value: Seq<char>,
}

impl View for YggdrasilKVPair {
    type V = KVPairView;

    open spec fn view(&self) -> KVPairView {
        KVPairView { name: self.name@, value: self.value@ }
    }
}

/// One player profile of an identity.
#[derive(Debug, Clone)]
pub struct YggdrasilProfile {
    pub id: String,
    pub name: String,
    pub properties: Vec<YggdrasilKVPair>,
}

/// The mathematical shape of a player profile.
pub struct ProfileView {
    pub id: Seq<char>,
    pub name: Seq<char>,
    pub properties: Seq<KVPairView>,
}

impl View for YggdrasilProfile {
    type V = ProfileView;

    open spec fn view(&self) -> ProfileView {
        ProfileView {
            id: self.id@,
            name: self.name@,
            properties: self.properties@.map_values(|p: YggdrasilKVPair| p@),
        }
    }
}

/// The one identity shape every provider's answer is normalized into.
/// `uid` is provider-local: key on `(provider, uid)`, never `uid` alone.
#[derive(Debug, Clone)]
pub struct UnifiedUserInfo {
    pub uid: String,
    pub nickname: String,
    pub email: String,
    pub provider: String,
    pub provider_type: OAuthProviderType,
    pub profiles: Vec<YggdrasilProfile>,
}

/// The mathematical shape of a normalized identity.
pub struct UserInfoView {
    pub uid: Seq<char>,
    pub nickname: Seq<char>,
    pub email: Seq<char>,
    pub provider: Seq<char>,
    pub provider_type: ProviderTypeView,
    pub profiles: Seq<ProfileView>,
}

impl View for UnifiedUserInfo {
    type V = UserInfoView;

    open spec fn view(&self) -> UserInfoView {
        UserInfoView {
            uid: self.uid@,
            nickname: self.nickname@,
            email: self.email@,
            provider: self.provider@,
            provider_type: self.provider_type@,
            profiles: self.profiles@.map_values(|p: YggdrasilProfile| p@),
        }
    }
}

/// The session credential: what the session cookie carries, once signed.
/// `expire_date` is seconds since the Unix epoch; the credential is valid
/// only while the clock is strictly before it.
#[derive(Debug, Clone)]
pub struct TokenInformation {
    pub access_token: String,
    pub provider_name: String,
    pub expire_date: u64,
    pub user_info: UnifiedUserInfo,
}

/// The mathematical shape of a session credential.
pub struct TokenInformationView {
    pub access_token: Seq<char>,
    pub provider_name: Seq<char>,
    pub expire_date: u64,
    pub user_info: UserInfoView,
}

impl View for TokenInformation {
    type V = TokenInformationView;

    open spec fn view(&self) -> TokenInformationView {
        TokenInformationView {
            access_token: self.access_token@,
            provider_name: self.provider_name@,
            expire_date: self.expire_date,
            user_info: self.user_info@,
        }
    }
}

/// The query parameters a provider sends back to the callback endpoint.
#[derive(Debug, Clone)]
pub struct AuthRequest {
    pub code: String,
    pub state: String,
}


impl core::str::FromStr for OAuthProviderType {
    type Err = String;

    fn from_str(s: &str) -> Result<Self, String> {
        parse_provider_type(s)
    }
}

} // verus!
