//! The failure taxonomy of the gateway: every request-level error, the
//! HTTP status it maps to, and the message it carries.

use vstd::prelude::*;
use vstd::string::*;

verus! {

/// The kind of a failure, without its message.
#[derive(Debug, Clone, Copy, PartialEq, Eq, Structural)]
pub enum AuthErrorKind {
    ProviderNotFound,
    ProviderDisabled,
    StateVerificationFailed,
    ExchangeError,
    IdentityFetchError,
    TokenMalformed,
    TokenSignatureInvalid,
    SessionExpired,
    Unauthenticated,
    NotImplemented,
}

/// A request-level failure. Name-carrying variants remember which provider
/// was asked for; upstream variants carry the upstream message, which never
/// holds a local secret.
#[derive(Debug, Clone)]
pub enum AuthError {
    ProviderNotFound(String),
    ProviderDisabled(String),
    StateVerificationFailed,
    ExchangeError(String),
    IdentityFetchError(String),
    TokenMalformed,
    TokenSignatureInvalid,
    SessionExpired,
    Unauthenticated,
    NotImplemented,
}

impl AuthError {
    /// The kind of this failure.
    pub open spec fn kind_spec(&self) -> AuthErrorKind {
        match self {
            AuthError::ProviderNotFound(_) => AuthErrorKind::ProviderNotFound,
            AuthError::ProviderDisabled(_) => AuthErrorKind::ProviderDisabled,
            AuthError::StateVerificationFailed => AuthErrorKind::StateVerificationFailed,
            AuthError::ExchangeError(_) => AuthErrorKind::ExchangeError,
            AuthError::IdentityFetchError(_) => AuthErrorKind::IdentityFetchError,
            AuthError::TokenMalformed => AuthErrorKind::TokenMalformed,
            AuthError::TokenSignatureInvalid => AuthErrorKind::TokenSignatureInvalid,
            AuthError::SessionExpired => AuthErrorKind::SessionExpired,
            AuthError::Unauthenticated => AuthErrorKind::Unauthenticated,
            AuthError::NotImplemented => AuthErrorKind::NotImplemented,
        }
    }

    pub fn kind(&self) -> (r: AuthErrorKind)
        ensures
            r == self.kind_spec(),
    {
        match self {
            AuthError::ProviderNotFound(_) => AuthErrorKind::ProviderNotFound,
            AuthError::ProviderDisabled(_) => AuthErrorKind::ProviderDisabled,
            AuthError::StateVerificationFailed => AuthErrorKind::StateVerificationFailed,
            AuthError::ExchangeError(_) => AuthErrorKind::ExchangeError,
            AuthError::IdentityFetchError(_) => AuthErrorKind::IdentityFetchError,
            AuthError::TokenMalformed => AuthErrorKind::TokenMalformed,
            AuthError::TokenSignatureInvalid => AuthErrorKind::TokenSignatureInvalid,
            AuthError::SessionExpired => AuthErrorKind::SessionExpired,
            AuthError::Unauthenticated => AuthErrorKind::Unauthenticated,
            AuthError::NotImplemented => AuthErrorKind::NotImplemented,
        }
    }

    /// The HTTP status a kind maps to: absent names are 404, disabled
    /// providers 403, anything about credentials 401, upstream or
    /// internal failures 500.
    pub open spec fn http_status_of(k: AuthErrorKind) -> u16 {
        match k {
            AuthErrorKind::ProviderNotFound => 404,
            AuthErrorKind::ProviderDisabled => 403,
            AuthErrorKind::StateVerificationFailed => 401,
            AuthErrorKind::ExchangeError => 500,
            AuthErrorKind::IdentityFetchError => 500,
            AuthErrorKind::TokenMalformed => 401,
            AuthErrorKind::TokenSignatureInvalid => 401,
            AuthErrorKind::SessionExpired => 401,
            AuthErrorKind::Unauthenticated => 401,
            AuthErrorKind::NotImplemented => 500,
        }
    }

    pub fn http_status(&self) -> (r: u16)
        ensures
            r == Self::http_status_of(self.kind_spec()),
    {
        match self.kind() {
            AuthErrorKind::ProviderNotFound => 404,
            AuthErrorKind::ProviderDisabled => 403,
            AuthErrorKind::StateVerificationFailed => 401,
            AuthErrorKind::ExchangeError => 500,
            AuthErrorKind::IdentityFetchError => 500,
            AuthErrorKind::TokenMalformed => 401,
            AuthErrorKind::TokenSignatureInvalid => 401,
            AuthErrorKind::SessionExpired => 401,
            AuthErrorKind::Unauthenticated => 401,
            AuthErrorKind::NotImplemented => 500,
        }
    }

    /// The message of this failure.
    pub open spec fn message_spec(&self) -> Seq<char> {
        match self {
            AuthError::ProviderNotFound(n) => "Provider "@ + n@ + " not found"@,
            AuthError::ProviderDisabled(n) => "Provider "@ + n@ + " is disabled"@,
            AuthError::StateVerificationFailed => "State verification failed"@,
            AuthError::ExchangeError(m) => m@,
            AuthError::IdentityFetchError(m) => m@,
            AuthError::TokenMalformed => "Invalid token"@,
            AuthError::TokenSignatureInvalid => "Invalid token"@,
            AuthError::SessionExpired => "Login token expired"@,
            AuthError::Unauthenticated => "Not authenticated"@,
            AuthError::NotImplemented => "Provider type not implemented"@,
        }
    }

    pub fn message(&self) -> (r: String)
        ensures
            r@ == self.message_spec(),
    {
        match self {
            AuthError::ProviderNotFound(n) => {
                let mut m = "Provider ".to_owned();
                m.append(n.as_str());
                m.append(" not found");
                m
            },
            AuthError::ProviderDisabled(n) => {
                let mut m = "Provider ".to_owned();
                m.append(n.as_str());
                m.append(" is disabled");
                m
            },
            AuthError::StateVerificationFailed => "State verification failed".to_owned(),
            AuthError::ExchangeError(m) => m.clone(),
            AuthError::IdentityFetchError(m) => m.clone(),
            AuthError::TokenMalformed => "Invalid token".to_owned(),
            AuthError::TokenSignatureInvalid => "Invalid token".to_owned(),
            AuthError::SessionExpired => "Login token expired".to_owned(),
            AuthError::Unauthenticated => "Not authenticated".to_owned(),
            AuthError::NotImplemented => "Provider type not implemented".to_owned(),
        }
    }
}

} // verus!
