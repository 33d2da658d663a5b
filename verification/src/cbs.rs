//! The claims-based-security extension: the token and the provider plug
//! point. The token exchange itself runs outside the core.

use vstd::prelude::*;

verus! {

/// A security token a provider hands out: the token bytes, its type, and
/// when it expires.
#[derive(PartialEq, Eq, Debug)]
pub struct CbsToken {
    /// The token itself.
    pub token_value: String,
    /// The type of the token.
    pub token_type: String,
    /// When the token expires, in milliseconds since the epoch, when the
    /// provider knows.
    pub expires_at_ms: Option<i64>,
}

impl CbsToken {
    /// Builds a token from its parts.
    pub fn new(token_value: String, token_type: String, expires_at_ms: Option<i64>)
        -> (r: Self)
        ensures
            r.token_value@ == token_value@,
            r.token_type@ == token_type@,
            r.expires_at_ms == expires_at_ms,
    {
        CbsToken { token_value, token_type, expires_at_ms }
    }
}

/// A provider of security tokens, keyed by container, resource and
/// claims. Implementations live with the user of the library; the core
/// only calls this plug point.
pub trait CbsTokenProvider {
    /// The provider's error.
    type Error;

    /// Produces a token for the given container, resource and claims.
    fn get_token(&mut self, container_id: &str, resource_id: &str, claims: Vec<String>)
        -> Result<CbsToken, Self::Error>;
}

} // verus!
