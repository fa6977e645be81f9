//! An OAuth2 authentication gateway core: a registry of identity providers,
//! a signed-token codec for the anti-forgery state value and the session
//! credential, the login/callback/logout flow, and the request middleware
//! that re-validates the session credential.

pub mod codec;
pub mod config;
pub mod errors;
pub mod flow;
pub mod middleware;
pub mod hex;
pub mod model;
pub mod provider;
pub mod text;
pub mod wire;
