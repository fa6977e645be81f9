//! The provider client: a closed dispatch over provider kinds. The
//! Blessing Skin client builds the authorize URL, describes the token
//! exchange request, and normalizes the provider's answers; asking for a
//! kind with no implementation fails at construction, never at runtime.

use vstd::prelude::*;
use vstd::string::*;
use crate::config::OAuthProviderConfig;
use crate::errors::AuthError;
use crate::model::{OAuthProviderType, ProviderTypeView, UnifiedUserInfo, YggdrasilProfile,
    base_url_spec};
use crate::text::{chars_of_str, string_from_chars};

verus! {

/// What `urlencoding::encode` returns on the given characters.
pub uninterp spec fn urlencode_of(s: Seq<char>) -> Seq<char>;

/// The characters that percent-encoding passes through unchanged.
pub open spec fn is_url_unreserved(c: char) -> bool {
    ('0' <= c && c <= '9') || ('a' <= c && c <= 'z') || ('A' <= c && c <= 'Z') || c == '-' || c
        == '.' || c == '_' || c == '~'
}

/// Relies on `urlencoding::encode`: it percent-encodes every byte except
/// ASCII alphanumerics and `-`, `.`, `_`, `~`, as a function of the input
/// alone, and passes an input made only of those characters through
/// unchanged.
#[verifier::external_body]
fn urlencode(s: &str) -> (r: String)
    ensures
        r@ == urlencode_of(s@),
        (forall|i: int| 0 <= i < s@.len() ==> is_url_unreserved(s@[i])) ==> r@ == s@,
{
    urlencoding::encode(s).into_owned()
}

/// `s` without its trailing slashes.
pub open spec fn trim_trailing_slashes(s: Seq<char>) -> Seq<char>
    decreases s.len(),
{
    if s.len() > 0 && s[s.len() - 1] == '/' {
        trim_trailing_slashes(s.drop_last())
    } else {
        s
    }
}

/// The cut point found by scanning back over slashes is where trimming
/// ends.
proof fn lemma_trim_at(s: Seq<char>, e: int)
    requires
        0 <= e <= s.len(),
        forall|j: int| e <= j < s.len() ==> s[j] == '/',
        e > 0 ==> s[e - 1] != '/',
    ensures
        trim_trailing_slashes(s) == s.subrange(0, e),
    decreases s.len(),
{
    if s.len() == e {
        assert(s.subrange(0, e) =~= s);
    } else {
        assert(s[s.len() - 1] == '/');
        assert forall|j: int| e <= j < s.drop_last().len() implies s.drop_last()[j] == '/' by {
            assert(s.drop_last()[j] == s[j]);
        }
        lemma_trim_at(s.drop_last(), e);
        assert(s.drop_last().subrange(0, e) =~= s.subrange(0, e));
    }
}

/// The characters of `s` without its trailing slashes.
fn trim_slashes(s: &str) -> (r: Vec<char>)
    ensures
        r@ == trim_trailing_slashes(s@),
{
    let mut cs = chars_of_str(s);
    let mut e = cs.len();
    loop
        invariant_except_break
            e <= cs@.len(),
            cs@ == s@,
            forall|j: int| e <= j < s@.len() ==> s@[j] == '/',
        ensures
            e <= cs@.len(),
            cs@ == s@,
            forall|j: int| e <= j < s@.len() ==> s@[j] == '/',
            e > 0 ==> s@[e - 1] != '/',
        decreases e,
    {
        if e == 0 {
            break ;
        }
        if cs[e - 1] != '/' {
            break ;
        }
        e = e - 1;
    }
    proof {
        lemma_trim_at(s@, e as int);
    }
    cs.truncate(e);
    cs
}

/// The scopes joined by single spaces, in order.
pub open spec fn join_scopes(xs: Seq<Seq<char>>) -> Seq<char>
    decreases xs.len(),
{
    if xs.len() == 0 {
        Seq::<char>::empty()
    } else if xs.len() == 1 {
        xs[0]
    } else {
        xs[0] + seq![' '] + join_scopes(xs.drop_first())
    }
}

/// The views of a vector of scope strings.
pub open spec fn scope_views(ss: Seq<String>) -> Seq<Seq<char>> {
    ss.map_values(|s: String| s@)
}

/// One more scope extends the joined run after a space.
proof fn lemma_join_scopes_snoc(xs: Seq<Seq<char>>, x: Seq<char>)
    requires
        xs.len() >= 1,
    ensures
        join_scopes(xs.push(x)) == join_scopes(xs) + seq![' '] + x,
    decreases xs.len(),
{
    let w = xs.push(x);
    if xs.len() == 1 {
        assert(w.len() == 2);
        assert(w[0] == xs[0] && w[1] == x);
        assert(w.drop_first() =~= seq![x]);
        assert(join_scopes(w) == xs[0] + seq![' '] + join_scopes(seq![x]));
        assert(join_scopes(seq![x]) == x);
    } else {
        assert(w.drop_first() =~= xs.drop_first().push(x));
        lemma_join_scopes_snoc(xs.drop_first(), x);
        assert(w[0] == xs[0]);
        assert(join_scopes(w) == xs[0] + seq![' '] + (join_scopes(xs.drop_first()) + seq![' ']
            + x));
        assert(xs[0] + seq![' '] + (join_scopes(xs.drop_first()) + seq![' '] + x) =~= (xs[0]
            + seq![' '] + join_scopes(xs.drop_first())) + seq![' '] + x);
    }
}

/// Joins the scopes with single spaces, as the authorize URL carries them.
fn join_scopes_exec(ss: &Vec<String>) -> (r: String)
    ensures
        r@ == join_scopes(scope_views(ss@)),
{
    let mut r = String::new();
    let n = ss.len();
    let mut i: usize = 0;
    while i < n
        invariant
            i <= n,
            n == ss@.len(),
            r@ == join_scopes(scope_views(ss@).subrange(0, i as int)),
        decreases n - i,
    {
        proof {
            reveal_strlit(" ");
            assert(" "@ =~= seq![' ']);
            let views = scope_views(ss@);
            assert(views.subrange(0, i + 1 as int) =~= views.subrange(0, i as int).push(
                views[i as int],
            ));
            if i > 0 {
                lemma_join_scopes_snoc(views.subrange(0, i as int), views[i as int]);
            } else {
                assert(views.subrange(0, 1) =~= seq![views[0]]);
                assert(join_scopes(seq![views[0]]) == views[0]);
                assert(Seq::<char>::empty() + views[0] =~= views[0]);
            }
        }
        if i > 0 {
            r.append(" ");
        }
        r.append(ss[i].as_str());
        i = i + 1;
    }
    proof {
        assert(scope_views(ss@).subrange(0, n as int) =~= scope_views(ss@));
    }
    r
}

/// The provider's authorization endpoint URL: its base, the client id and
/// redirect URI percent-encoded, the opaque state, and the scopes.
pub open spec fn authorize_url_spec(
    c: OAuthProviderConfig,
    redirect_uri: Seq<char>,
    state: Seq<char>,
) -> Seq<char> {
    trim_trailing_slashes(base_url_spec(c.provider_type@)) + "/oauth/authorize?client_id="@
        + urlencode_of(c.client_id@) + "&redirect_uri="@ + urlencode_of(redirect_uri)
        + "&response_type=code&state="@ + state + "&scope="@ + join_scopes(scope_views(c.scopes@))
}

/// One outgoing form-encoded POST, described but not sent: the token
/// exchange that turns an authorization code into an access token.
#[derive(Debug, Clone)]
pub struct ExchangeRequest {
    pub url: String,
    pub form: Vec<(String, String)>,
}

/// The client of a Blessing Skin site.
#[derive(Debug)]
pub struct BlessingSkinProvider {
    pub config: OAuthProviderConfig,
    pub name: String,
}

impl BlessingSkinProvider {
    /// A client for the given configuration, serving the named provider.
    pub fn new(config: OAuthProviderConfig, name: String) -> (r: Self)
        ensures
            r.config == config,
            r.name == name,
    {
        BlessingSkinProvider { config, name }
    }

    /// The URL a login is redirected to, carrying the signed state.
    pub fn get_authorize_url(&self, redirect_uri: &str, state: &str) -> (r: String)
        ensures
            r@ == authorize_url_spec(self.config, redirect_uri@, state@),
    {
        let base = trim_slashes(self.config.provider_type.base_url());
        let mut url = string_from_chars(&base);
        url.append("/oauth/authorize?client_id=");
        let enc_id = urlencode(self.config.client_id.as_str());
        url.append(enc_id.as_str());
        url.append("&redirect_uri=");
        let enc_ru = urlencode(redirect_uri);
        url.append(enc_ru.as_str());
        url.append("&response_type=code&state=");
        url.append(state);
        url.append("&scope=");
        let joined = join_scopes_exec(&self.config.scopes);
        url.append(joined.as_str());
        url
    }

    /// The token exchange request for an authorization code: where to
    /// POST and which form fields to send.
    pub fn exchange_request(&self, code: &str, redirect_uri: &str) -> (r: ExchangeRequest)
        ensures
            r.url@ == trim_trailing_slashes(base_url_spec(self.config.provider_type@))
                + "/oauth/token"@,
            r.form@.len() == 5,
            r.form@[0].0@ == "grant_type"@ && r.form@[0].1@ == "authorization_code"@,
            r.form@[1].0@ == "client_id"@ && r.form@[1].1@ == self.config.client_id@,
            r.form@[2].0@ == "client_secret"@ && r.form@[2].1@ == self.config.client_secret@,
            r.form@[3].0@ == "redirect_uri"@ && r.form@[3].1@ == redirect_uri@,
            r.form@[4].0@ == "code"@ && r.form@[4].1@ == code@,
    {
        let base = trim_slashes(self.config.provider_type.base_url());
        let mut url = string_from_chars(&base);
        url.append("/oauth/token");
        let mut form: Vec<(String, String)> = Vec::new();
        form.push(("grant_type".to_owned(), "authorization_code".to_owned()));
        form.push(("client_id".to_owned(), self.config.client_id.clone()));
        form.push(("client_secret".to_owned(), self.config.client_secret.clone()));
        form.push(("redirect_uri".to_owned(), redirect_uri.to_owned()));
        form.push(("code".to_owned(), code.to_owned()));
        ExchangeRequest { url, form }
    }

    /// The three identity endpoints of the provider's site: the user, the
    /// player list, and the profile lookup. A client whose configuration
    /// carries the wrong kind reports a fetch error instead of failing the
    /// process.
    pub fn identity_endpoints(&self) -> (r: Result<(String, String, String), AuthError>)
        ensures
            self.config.provider_type@ matches ProviderTypeView::BlessingSkin(u) ==> (r matches
                Ok(t) && t.0@ == u + "/api/user"@ && t.1@ == u + "/api/players"@ && t.2@ == u
                + "/api/yggdrasil/api/profiles/minecraft"@),
            (self.config.provider_type@ is Microsoft) ==> (r matches Err(e) && e matches
                AuthError::IdentityFetchError(_)),
    {
        match &self.config.provider_type {
            OAuthProviderType::BlessingSkin(base) => {
                let mut user_url = base.clone();
                user_url.append("/api/user");
                let mut players_url = base.clone();
                players_url.append("/api/players");
                let mut profiles_url = base.clone();
                profiles_url.append("/api/yggdrasil/api/profiles/minecraft");
                Ok((user_url, players_url, profiles_url))
            },
            OAuthProviderType::Microsoft => Err(
                AuthError::IdentityFetchError(
                    "Invalid provider type for BlessingSkinProvider".to_owned(),
                ),
            ),
        }
    }

    /// The kind this client serves.
    pub fn provider_type(&self) -> (r: OAuthProviderType)
        ensures
            r@ == self.config.provider_type@,
    {
        match &self.config.provider_type {
            OAuthProviderType::BlessingSkin(u) => OAuthProviderType::BlessingSkin(u.clone()),
            OAuthProviderType::Microsoft => OAuthProviderType::Microsoft,
        }
    }
}

/// A provider client of some kind: a closed union, one variant per
/// implemented kind.
#[derive(Debug)]
pub enum ProviderClient {
    BlessingSkin(BlessingSkinProvider),
}

/// Builds the client for a provider's configured kind. A kind with no
/// implementation is refused here, at construction, with an explicit
/// error.
pub fn create_oauth_provider(
    provider_config: &OAuthProviderConfig,
    provider_name: &str,
) -> (r: Result<ProviderClient, AuthError>)
    ensures
        (provider_config.provider_type@ matches ProviderTypeView::BlessingSkin(_)) ==> (r matches
            Ok(p) && p matches ProviderClient::BlessingSkin(b) && b.config.provider_type@
            == provider_config.provider_type@ && b.config.client_id@ == provider_config.client_id@
            && b.config.client_secret@ == provider_config.client_secret@ && b.config.enabled
            == provider_config.enabled && scope_views(b.config.scopes@) == scope_views(
            provider_config.scopes@,
        ) && b.name@ == provider_name@),
        (provider_config.provider_type@ is Microsoft) ==> (r matches Err(e) && e matches
            AuthError::NotImplemented),
{
    match &provider_config.provider_type {
        OAuthProviderType::BlessingSkin(_) => {
            let config = clone_provider_config(provider_config);
            Ok(ProviderClient::BlessingSkin(BlessingSkinProvider::new(
                config,
                provider_name.to_owned(),
            )))
        },
        OAuthProviderType::Microsoft => Err(AuthError::NotImplemented),
    }
}

/// A copy of a provider's configuration, field by field.
fn clone_provider_config(c: &OAuthProviderConfig) -> (r: OAuthProviderConfig)
    ensures
        r.provider_type@ == c.provider_type@,
        r.client_id@ == c.client_id@,
        r.client_secret@ == c.client_secret@,
        r.enabled == c.enabled,
        scope_views(r.scopes@) == scope_views(c.scopes@),
{
    let provider_type = match &c.provider_type {
        OAuthProviderType::BlessingSkin(u) => OAuthProviderType::BlessingSkin(u.clone()),
        OAuthProviderType::Microsoft => OAuthProviderType::Microsoft,
    };
    let mut scopes: Vec<String> = Vec::new();
    let n = c.scopes.len();
    let mut i: usize = 0;
    while i < n
        invariant
            i <= n,
            n == c.scopes@.len(),
            scopes@.len() == i,
            forall|j: int| 0 <= j < i ==> #[trigger] scopes@[j]@ == c.scopes@[j]@,
        decreases n - i,
    {
        scopes.push(c.scopes[i].clone());
        i = i + 1;
    }
    proof {
        assert(scope_views(scopes@) =~= scope_views(c.scopes@));
    }
    OAuthProviderConfig {
        provider_type,
        client_id: c.client_id.clone(),
        client_secret: c.client_secret.clone(),
        enabled: c.enabled,
        scopes,
    }
}

/// The user record a Blessing Skin site answers with.
#[derive(Debug, Clone)]
pub struct BlessingSkinUserInfo {
    pub uid: u64,
    pub nickname: String,
    pub email: String,
}

/// One row of a Blessing Skin site's player list.
#[derive(Debug, Clone)]
pub struct BlessingSkinProfile {
    pub pid: i32,
    pub uid: i32,
    pub name: String,
    pub tid_skin: i32,
    pub tid_cape: i32,
    pub last_modified: String,
}

/// The decimal rendering of a number.
pub open spec fn decimal_str(n: nat) -> Seq<char>
    decreases n,
{
    if n < 10 {
        seq![(('0' as u8) + n as u8) as char]
    } else {
        decimal_str(n / 10) + seq![(('0' as u8) + (n % 10) as u8) as char]
    }
}

/// Renders a number in decimal.
fn u64_to_decimal_chars(n: u64) -> (r: Vec<char>)
    ensures
        r@ == decimal_str(n as nat),
    decreases n,
{
    if n < 10 {
        let mut v: Vec<char> = Vec::new();
        v.push((('0' as u8) + n as u8) as char);
        proof {
            assert(v@ =~= decimal_str(n as nat));
        }
        v
    } else {
        let mut v = u64_to_decimal_chars(n / 10);
        v.push((('0' as u8) + (n % 10) as u8) as char);
        proof {
            assert(decimal_str((n / 10) as nat).push((('0' as u8) + (n % 10) as u8) as char)
                =~= decimal_str(n as nat));
        }
        v
    }
}

/// The player names of the provider's player list, in order: what the
/// profile lookup is asked about.
pub fn player_names(profs: &Vec<BlessingSkinProfile>) -> (r: Vec<String>)
    ensures
        r@.len() == profs@.len(),
        forall|i: int| 0 <= i < r@.len() ==> #[trigger] r@[i]@ == profs@[i].name@,
{
    let mut r: Vec<String> = Vec::new();
    let n = profs.len();
    let mut i: usize = 0;
    while i < n
        invariant
            i <= n,
            n == profs@.len(),
            r@.len() == i,
            forall|j: int| 0 <= j < i ==> #[trigger] r@[j]@ == profs@[j].name@,
        decreases n - i,
    {
        r.push(profs[i].name.clone());
        i = i + 1;
    }
    r
}

/// Normalizes one provider answer into the unified identity shape: the
/// numeric user id becomes its decimal string, everything else is carried
/// over, and missing optional parts arrive as empty vectors, never as
/// failure.
pub fn unify_user_info(
    user: BlessingSkinUserInfo,
    provider_name: String,
    provider_type: OAuthProviderType,
    profiles: Vec<YggdrasilProfile>,
) -> (r: UnifiedUserInfo)
    ensures
        r.uid@ == decimal_str(user.uid as nat),
        r.nickname == user.nickname,
        r.email == user.email,
        r.provider == provider_name,
        r.provider_type == provider_type,
        r.profiles == profiles,
{
    let uid_chars = u64_to_decimal_chars(user.uid);
    UnifiedUserInfo {
        uid: string_from_chars(&uid_chars),
        nickname: user.nickname,
        email: user.email,
        provider: provider_name,
        provider_type,
        profiles,
    }
}

} // verus!
