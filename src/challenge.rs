//! HTTP-01 challenges and the registry that the plaintext listener answers from.

use vstd::prelude::*;
use crate::domains::DomainMap;

verus! {

/// The path under which the ACME server fetches the proof for `token`.
pub open spec fn challenge_path(token: Seq<char>) -> Seq<char> {
    "/.well-known/acme-challenge/"@ + token
}

/// An HTTP-01 challenge that is published while its order awaits validation.
pub struct Challenge {
    pub path: String,
    pub proof: String,
}

impl Challenge {
    /// The challenge for `token`, answered with `proof`.
    pub fn new(token: &str, proof: String) -> (r: Self)
        ensures
            r.path@ == challenge_path(token@),
            r.proof@ == proof@,
    {
        let prefix = String::from_str("/.well-known/acme-challenge/");
        Challenge { path: prefix.concat(token), proof }
    }
}

/// The challenges that are currently published, at most one per domain.
pub type ChallengeRegistry = DomainMap<Challenge>;

} // verus!
