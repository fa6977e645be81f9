//! The login/callback/logout flow: each endpoint's decisions as pure
//! functions over the configuration, the request values, and fresh
//! randomness, with the network left to the caller.

use vstd::prelude::*;
use vstd::string::*;
use crate::codec::{sign, verify, sign_spec, verify_spec};
use crate::config::{Config, lookup_provider, enabled_entries, redirect_uri_spec};
use crate::errors::AuthError;
use crate::hex::{hex_of_bytes, is_hex_digit, bytes_to_hex, lemma_hex_of_bytes_len,
    lemma_hex_of_bytes_digits};
use crate::model::{AuthRequest, ProviderTypeView, UnifiedUserInfo, TokenInformation,
    display_name_spec, kind_name_spec};
use crate::provider::{ProviderClient, ExchangeRequest, create_oauth_provider, authorize_url_spec,
    trim_trailing_slashes};
use crate::model::base_url_spec;
use crate::model::TokenInformationView;
use crate::text::{chars_of_str, string_from_chars};
use crate::wire::{enc_token, encode_credential};

verus! {

/// Relies on `uuid::Uuid::new_v4`: a freshly drawn random UUID. Nothing
/// is assumed of its value beyond its sixteen bytes.
#[verifier::external_body]
fn fresh_nonce() -> (r: Vec<u8>)
    ensures
        r@.len() == 16,
{
    uuid::Uuid::new_v4().into_bytes().to_vec()
}

/// What `login` owes for each configuration and name, given the nonce it
/// signed: the provider resolved, its enabled flag honoured, and on
/// success the authorize URL carrying the freshly signed state.
pub open spec fn login_outcome_ok(
    config: Config,
    provider_name: Seq<char>,
    nonce: Seq<u8>,
    r: Result<String, AuthError>,
) -> bool {
    match lookup_provider(config.oauth.providers@, provider_name) {
        Option::None => r matches Err(e) && (e matches AuthError::ProviderNotFound(n) && n@
            == provider_name),
        Option::Some(c) => if !c.enabled {
            r matches Err(e) && (e matches AuthError::ProviderDisabled(n) && n@ == provider_name)
        } else {
            match c.provider_type@ {
                ProviderTypeView::Microsoft => r matches Err(e) && e matches
                    AuthError::NotImplemented,
                ProviderTypeView::BlessingSkin(_) => r matches Ok(url) && url@
                    == authorize_url_spec(
                    c,
                    redirect_uri_spec(config.oauth.prefix_url@, provider_name),
                    sign_spec(hex_of_bytes(nonce), config.oauth.secret_string@),
                ),
            }
        },
    }
}

/// Starts a login for the named provider with the given fresh nonce:
/// resolves the provider (absent names are 404, disabled ones 403), signs
/// the nonce as the state token, and yields the URL to redirect to.
pub fn login_with_nonce(config: &Config, provider_name: &str, nonce: &Vec<u8>) -> (r: Result<
    String,
    AuthError,
>)
    requires
        nonce@.len() == 16,
    ensures
        login_outcome_ok(*config, provider_name@, nonce@, r),
{
    let provider_config = match config.get_provider(provider_name) {
        Some(c) => c,
        None => {
            return Err(AuthError::ProviderNotFound(provider_name.to_owned()));
        },
    };
    if !provider_config.enabled {
        return Err(AuthError::ProviderDisabled(provider_name.to_owned()));
    }
    let redirect_uri = config.get_redirect_uri(provider_name);
    let provider = match create_oauth_provider(provider_config, provider_name) {
        Ok(p) => p,
        Err(e) => {
            return Err(e);
        },
    };
    let payload_chars = bytes_to_hex(nonce.as_slice());
    let payload = string_from_chars(&payload_chars);
    let state_token = sign(payload.as_str(), config.oauth.secret_string.as_str());
    match provider {
        ProviderClient::BlessingSkin(b) => {
            let url = b.get_authorize_url(redirect_uri.as_str(), state_token.as_str());
            Ok(url)
        },
    }
}

/// Starts a login for the named provider, drawing a fresh nonce for the
/// state token.
pub fn login(config: &Config, provider_name: &str) -> (r: Result<String, AuthError>)
    ensures
        exists|nonce: Seq<u8>|
            nonce.len() == 16 && #[trigger] login_outcome_ok(*config, provider_name@, nonce, r),
{
    let nonce = fresh_nonce();
    let r = login_with_nonce(config, provider_name, &nonce);
    proof {
        assert(login_outcome_ok(*config, provider_name@, nonce@, r));
    }
    r
}

/// Whether a state value is one this process issued: it verifies under
/// the key and its payload has the shape of a signed nonce, thirty-two
/// hexadecimal digits.
///
/// Deliberately, nothing stores issued nonces and the state carries no
/// expiry: there is no server-side session state, so a still-valid state
/// token could be presented more than once before it is used. Tampered
/// or foreign states are always rejected; replay of an intact one is an
/// accepted limit of the stateless design.
pub open spec fn state_ok(state: Seq<char>, key: Seq<char>) -> bool {
    match verify_spec(state, key) {
        Result::Ok(p) => p.len() == 32 && (forall|i: int| 0 <= i < 32 ==> is_hex_digit(p[i])),
        Result::Err(_) => false,
    }
}

/// A state token signed over a fresh nonce passes the callback's check.
pub proof fn lemma_state_token_fresh(nonce: Seq<u8>, key: Seq<char>)
    requires
        nonce.len() == 16,
    ensures
        state_ok(sign_spec(hex_of_bytes(nonce), key), key),
{
    crate::codec::lemma_sign_verify_roundtrip(hex_of_bytes(nonce), key);
    lemma_hex_of_bytes_len(nonce);
    lemma_hex_of_bytes_digits(nonce);
}

/// What the callback's first phase owes: a state that does not verify is
/// rejected before anything else, and no exchange request exists for it;
/// then the provider is resolved under the same checks as login, and on
/// success the token exchange request is fully described.
pub open spec fn callback_outcome_ok(
    config: Config,
    provider_name: Seq<char>,
    code: Seq<char>,
    state: Seq<char>,
    r: Result<ExchangeRequest, AuthError>,
) -> bool {
    if !state_ok(state, config.oauth.secret_string@) {
        r matches Err(e) && e matches AuthError::StateVerificationFailed
    } else {
        match lookup_provider(config.oauth.providers@, provider_name) {
            Option::None => r matches Err(e) && (e matches AuthError::ProviderNotFound(n) && n@
                == provider_name),
            Option::Some(c) => if !c.enabled {
                r matches Err(e) && (e matches AuthError::ProviderDisabled(n) && n@
                    == provider_name)
            } else {
                match c.provider_type@ {
                    ProviderTypeView::Microsoft => r matches Err(e) && e matches
                        AuthError::NotImplemented,
                    ProviderTypeView::BlessingSkin(_) => r matches Ok(req) && ({
                        &&& req.url@ == trim_trailing_slashes(base_url_spec(c.provider_type@))
                            + "/oauth/token"@
                        &&& req.form@.len() == 5
                        &&& req.form@[0].0@ == "grant_type"@ && req.form@[0].1@
                            == "authorization_code"@
                        &&& req.form@[1].0@ == "client_id"@ && req.form@[1].1@ == c.client_id@
                        &&& req.form@[2].0@ == "client_secret"@ && req.form@[2].1@
                            == c.client_secret@
                        &&& req.form@[3].0@ == "redirect_uri"@ && req.form@[3].1@
                            == redirect_uri_spec(config.oauth.prefix_url@, provider_name)
                        &&& req.form@[4].0@ == "code"@ && req.form@[4].1@ == code
                    }),
                }
            },
        }
    }
}

/// The callback's first phase: verifies the state token, resolves the
/// provider, and describes the token exchange to perform. A state that
/// fails verification never reaches the exchange step.
pub fn callback_begin(config: &Config, provider_name: &str, params: &AuthRequest) -> (r: Result<
    ExchangeRequest,
    AuthError,
>)
    ensures
        callback_outcome_ok(*config, provider_name@, params.code@, params.state@, r),
{
    let payload = match verify(params.state.as_str(), config.oauth.secret_string.as_str()) {
        Ok(p) => p,
        Err(_) => {
            return Err(AuthError::StateVerificationFailed);
        },
    };
    let pc = chars_of_str(payload.as_str());
    if pc.len() != 32 {
        return Err(AuthError::StateVerificationFailed);
    }
    let mut i: usize = 0;
    while i < 32
        invariant
            i <= 32,
            pc@.len() == 32,
            pc@ == payload@,
            verify_spec(params.state@, config.oauth.secret_string@) == Result::<
                Seq<char>,
                crate::codec::TokenError,
            >::Ok(payload@),
            forall|j: int| 0 <= j < i ==> is_hex_digit(pc@[j]),
        decreases 32 - i,
    {
        let c = pc[i];
        let is_digit = ('0' <= c && c <= '9') || ('a' <= c && c <= 'f');
        if !is_digit {
            proof {
                assert(!is_hex_digit(pc@[i as int]));
            }
            return Err(AuthError::StateVerificationFailed);
        }
        i = i + 1;
    }
    let provider_config = match config.get_provider(provider_name) {
        Some(c) => c,
        None => {
            return Err(AuthError::ProviderNotFound(provider_name.to_owned()));
        },
    };
    if !provider_config.enabled {
        return Err(AuthError::ProviderDisabled(provider_name.to_owned()));
    }
    let redirect_uri = config.get_redirect_uri(provider_name);
    let provider = match create_oauth_provider(provider_config, provider_name) {
        Ok(p) => p,
        Err(e) => {
            return Err(e);
        },
    };
    match provider {
        ProviderClient::BlessingSkin(b) => {
            let req = b.exchange_request(params.code.as_str(), redirect_uri.as_str());
            Ok(req)
        },
    }
}

/// What the callback issues once the provider has answered.
#[derive(Debug)]
pub struct SessionIssue {
    pub cookie_value: String,
    pub expire_date: u64,
    pub redirect_to: String,
}

/// The callback's last phase: builds the session credential expiring
/// `ttl_secs` after `now`, signs it, and directs the client home with the
/// cookie holding the signed credential.
pub fn callback_finish(
    provider_name: String,
    access_token: String,
    ttl_secs: u64,
    now: u64,
    user_info: UnifiedUserInfo,
    key: &str,
) -> (r: SessionIssue)
    requires
        now + ttl_secs <= u64::MAX,
    ensures
        r.expire_date == now + ttl_secs,
        r.redirect_to@ == "/"@,
        r.cookie_value@ == sign_spec(
            enc_token(
                TokenInformationView {
                    access_token: access_token@,
                    provider_name: provider_name@,
                    expire_date: (now + ttl_secs) as u64,
                    user_info: user_info@,
                },
            ),
            key@,
        ),
{
    let expire_date = now + ttl_secs;
    let token = TokenInformation { access_token, provider_name, expire_date, user_info };
    let payload = encode_credential(&token);
    let cookie_value = sign(payload.as_str(), key);
    SessionIssue { cookie_value, expire_date, redirect_to: "/".to_owned() }
}

/// What a logout answers: clear the cookie, go home.
#[derive(Debug)]
pub struct LogoutResponse {
    pub clear_cookie: bool,
    pub redirect_to: String,
}

/// Logs out: unconditionally clears the session cookie and redirects to
/// the root. It succeeds whether or not a session existed.
pub fn logout() -> (r: LogoutResponse)
    ensures
        r.clear_cookie,
        r.redirect_to@ == "/"@,
{
    LogoutResponse { clear_cookie: true, redirect_to: "/".to_owned() }
}

/// The session cookie the client holds after a logout response is
/// applied: none, whatever was held before.
pub open spec fn apply_logout(session: Option<Seq<char>>) -> Option<Seq<char>> {
    Option::None
}

/// Logging out is idempotent: a second logout leaves the client exactly
/// where the first did, holding no session cookie, and both succeed.
pub proof fn lemma_logout_idempotent(session: Option<Seq<char>>)
    ensures
        apply_logout(apply_logout(session)) == apply_logout(session),
        apply_logout(session) is None,
{
}

/// One row of the provider listing.
#[derive(Debug)]
pub struct ProviderEntry {
    pub name: String,
    pub kind: String,
    pub display_name: String,
    pub login_url: String,
}

/// The enabled providers as the listing endpoint shows them: name, kind,
/// display name, and the login URL for each.
pub fn list_providers(config: &Config) -> (r: Vec<ProviderEntry>)
    ensures
        ({
            let want = enabled_entries(config.oauth.providers@);
            &&& r@.len() == want.len()
            &&& forall|i: int|
                #![trigger r@[i]]
                0 <= i < r@.len() ==> {
                    &&& r@[i].name@ == want[i].0@
                    &&& r@[i].kind@ == kind_name_spec(want[i].1.provider_type@)
                    &&& r@[i].display_name@ == display_name_spec(want[i].1.provider_type@)
                    &&& r@[i].login_url@ == "/api/oauth/"@ + want[i].0@ + "/login"@
                }
        }),
{
    let entries = config.get_enabled_providers();
    let mut r: Vec<ProviderEntry> = Vec::new();
    let n = entries.len();
    let mut i: usize = 0;
    while i < n
        invariant
            i <= n,
            n == entries@.len(),
            ({
                let want = enabled_entries(config.oauth.providers@);
                &&& entries@.len() == want.len()
                &&& forall|j: int|
                    #![trigger entries@[j]]
                    0 <= j < entries@.len() ==> entries@[j].0@ == want[j].0@
                        && *(entries@[j].1) == want[j].1
                &&& r@.len() == i
                &&& forall|j: int|
                    #![trigger r@[j]]
                    0 <= j < i ==> {
                        &&& r@[j].name@ == want[j].0@
                        &&& r@[j].kind@ == kind_name_spec(want[j].1.provider_type@)
                        &&& r@[j].display_name@ == display_name_spec(want[j].1.provider_type@)
                        &&& r@[j].login_url@ == "/api/oauth/"@ + want[j].0@ + "/login"@
                    }
            }),
        decreases n - i,
    {
        let entry = &entries[i];
        let name = entry.0.clone();
        let kind = entry.1.provider_type.kind_name();
        let display_name = entry.1.provider_type.display_name();
        let mut login_url = "/api/oauth/".to_owned();
        login_url.append(name.as_str());
        login_url.append("/login");
        r.push(ProviderEntry { name, kind, display_name, login_url });
        i = i + 1;
    }
    r
}

} // verus!
