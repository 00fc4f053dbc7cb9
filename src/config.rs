//! Configuration of the vote service.

use crate::schema::PublicKey;
use vstd::prelude::*;

verus! {

/// Configuration of the vote service.
#[derive(Debug, Clone, Copy)]
pub struct VoteServiceConfig {
    /// Public key of the tallying authority, the peer of the key agreement.
    pub author_public_key: Option<PublicKey>,
}

impl Default for VoteServiceConfig {
    fn default() -> (r: VoteServiceConfig)
        ensures
            r.author_public_key is None,
    {
        VoteServiceConfig { author_public_key: None }
    }
}

} // verus!
