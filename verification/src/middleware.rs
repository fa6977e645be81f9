//! The request middleware: the single point that decides whether a
//! request is authenticated. It walks one request's credential from
//! cookie to identity: no cookie, a cookie that fails the codec, a
//! credential past its expiry, or a fresh one whose identity is handed
//! to the handler. Any failure of a previously trusted cookie also
//! clears it.

use vstd::prelude::*;
use vstd::string::*;
use crate::codec::{verify, verify_spec, sign_spec, TokenError};
use crate::errors::{AuthError, AuthErrorKind};
use crate::model::{UnifiedUserInfo, UserInfoView, TokenInformationView};
use crate::wire::{credential_of, decode_credential, enc_token, wf_token, lemma_credential_roundtrip};

verus! {

/// What the middleware decides for one request.
#[derive(Debug)]
pub enum AuthDecision {
    Authenticated(UnifiedUserInfo),
    Rejected { error: AuthError, clear_cookie: bool },
}

/// The mathematical shape of a decision: the identity let through, or the
/// kind of rejection and whether the cookie is cleared with it.
pub enum DecisionView {
    Authenticated(UserInfoView),
    Rejected { error: AuthErrorKind, clear_cookie: bool },
}

impl View for AuthDecision {
    type V = DecisionView;

    open spec fn view(&self) -> DecisionView {
        match self {
            AuthDecision::Authenticated(u) => DecisionView::Authenticated(u@),
            AuthDecision::Rejected { error, clear_cookie } => DecisionView::Rejected {
                error: error.kind_spec(),
                clear_cookie: *clear_cookie,
            },
        }
    }
}

/// The decision owed for one request: no cookie is unauthenticated and
/// leaves no cookie to clear; a cookie that the codec rejects, or whose
/// payload is not a credential, is invalid and cleared; a credential at
/// or past its expiry is expired and cleared; otherwise the embedded
/// identity is let through.
pub open spec fn authenticate_spec(
    cookie: Option<Seq<char>>,
    key: Seq<char>,
    now: u64,
) -> DecisionView {
    match cookie {
        Option::None => DecisionView::Rejected {
            error: AuthErrorKind::Unauthenticated,
            clear_cookie: false,
        },
        Option::Some(c) => match verify_spec(c, key) {
            Result::Err(TokenError::Malformed) => DecisionView::Rejected {
                error: AuthErrorKind::TokenMalformed,
                clear_cookie: true,
            },
            Result::Err(TokenError::SignatureInvalid) => DecisionView::Rejected {
                error: AuthErrorKind::TokenSignatureInvalid,
                clear_cookie: true,
            },
            Result::Ok(p) => match credential_of(p) {
                Option::None => DecisionView::Rejected {
                    error: AuthErrorKind::TokenMalformed,
                    clear_cookie: true,
                },
                Option::Some(tv) => if now >= tv.expire_date {
                    DecisionView::Rejected {
                        error: AuthErrorKind::SessionExpired,
                        clear_cookie: true,
                    }
                } else {
                    DecisionView::Authenticated(tv.user_info)
                },
            },
        },
    }
}

/// Validates one request's session cookie against the key and the clock.
pub fn authenticate(cookie: Option<&String>, key: &str, now: u64) -> (r: AuthDecision)
    ensures
        r@ == authenticate_spec(
            match cookie {
                Option::Some(c) => Option::Some(c@),
                Option::None => Option::None,
            },
            key@,
            now,
        ),
{
    let cookie_value = match cookie {
        Some(c) => c,
        None => {
            return AuthDecision::Rejected {
                error: AuthError::Unauthenticated,
                clear_cookie: false,
            };
        },
    };
    let payload = match verify(cookie_value.as_str(), key) {
        Ok(p) => p,
        Err(TokenError::Malformed) => {
            return AuthDecision::Rejected { error: AuthError::TokenMalformed, clear_cookie: true };
        },
        Err(TokenError::SignatureInvalid) => {
            return AuthDecision::Rejected {
                error: AuthError::TokenSignatureInvalid,
                clear_cookie: true,
            };
        },
    };
    let credential = match decode_credential(payload.as_str()) {
        Some(t) => t,
        None => {
            return AuthDecision::Rejected { error: AuthError::TokenMalformed, clear_cookie: true };
        },
    };
    if now >= credential.expire_date {
        return AuthDecision::Rejected { error: AuthError::SessionExpired, clear_cookie: true };
    }
    AuthDecision::Authenticated(credential.user_info)
}

/// Expiry enforcement: a credential whose expiry is at or before the
/// clock, signed under the right key, is rejected as expired and the
/// cookie is cleared — a valid signature does not save a stale session.
pub proof fn lemma_expired_credential_rejected(t: TokenInformationView, key: Seq<char>, now: u64)
    requires
        wf_token(t),
        now >= t.expire_date,
    ensures
        authenticate_spec(Option::Some(sign_spec(enc_token(t), key)), key, now)
            == (DecisionView::Rejected { error: AuthErrorKind::SessionExpired, clear_cookie: true }),
{
    crate::codec::lemma_sign_verify_roundtrip(enc_token(t), key);
    lemma_credential_roundtrip(t);
}

/// The happy path: a credential minted and signed under the key
/// authenticates every request before its expiry, and hands the handler
/// exactly the identity it carries.
pub proof fn lemma_fresh_credential_authenticates(t: TokenInformationView, key: Seq<char>, now: u64)
    requires
        wf_token(t),
        now < t.expire_date,
    ensures
        authenticate_spec(Option::Some(sign_spec(enc_token(t), key)), key, now)
            == DecisionView::Authenticated(t.user_info),
{
    crate::codec::lemma_sign_verify_roundtrip(enc_token(t), key);
    lemma_credential_roundtrip(t);
}

/// A missing cookie is rejected without clearing anything: the middleware
/// never mutates a cookie that is not there.
pub proof fn lemma_no_cookie_rejected(key: Seq<char>, now: u64)
    ensures
        authenticate_spec(Option::None, key, now) == (DecisionView::Rejected {
            error: AuthErrorKind::Unauthenticated,
            clear_cookie: false,
        }),
{
}

} // verus!
