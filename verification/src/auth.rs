//! Authorization of a write request: a shared secret and a collection prefix.

use vstd::prelude::*;

use crate::text::{starts_with, str_equal};

verus! {

/// What the process was configured with at startup.
pub struct GatewayConfig {
    /// The shared secret every caller must present.
    pub access_token: String,
    /// The prefix every writable collection name starts with.
    pub collection_prefix: String,
}

/// The mathematical content of a [`GatewayConfig`].
pub struct ConfigView {
    pub access_token: Seq<char>,
    pub collection_prefix: Seq<char>,
}

impl View for GatewayConfig {
    type V = ConfigView;

    open spec fn view(&self) -> ConfigView {
        ConfigView {
            access_token: self.access_token@,
            collection_prefix: self.collection_prefix@,
        }
    }
}

/// Why a request was turned away before any store access.
#[derive(Clone, Copy, Debug, PartialEq, Eq, Structural)]
pub enum AuthError {
    /// The token differs from the configured secret.
    Unauthorized,
    /// The collection lies outside the allowed namespace.
    Forbidden,
}

/// The verdict on a token and a collection name. The token is judged first:
/// a wrong token is `Unauthorized` whatever the collection is.
pub open spec fn authorization(
    config: ConfigView,
    token: Seq<char>,
    collection: Seq<char>,
) -> Result<(), AuthError> {
    if token != config.access_token {
        Err(AuthError::Unauthorized)
    } else if !config.collection_prefix.is_prefix_of(collection) {
        Err(AuthError::Forbidden)
    } else {
        Ok(())
    }
}

/// Checks the token against the secret, then the collection against the prefix.
pub fn authorize(config: &GatewayConfig, token: &str, collection: &str) -> (verdict: Result<
    (),
    AuthError,
>)
    ensures
        verdict == authorization(config@, token@, collection@),
{
    if !str_equal(config.access_token.as_str(), token) {
        Err(AuthError::Unauthorized)
    } else if !starts_with(collection, config.collection_prefix.as_str()) {
        Err(AuthError::Forbidden)
    } else {
        Ok(())
    }
}

} // verus!
