//! Replies of the plaintext listener: ACME probes are answered from the challenge
//! registry, everything else is redirected to HTTPS.

use vstd::prelude::*;
use crate::challenge::ChallengeRegistry;
use crate::challenge::Challenge;
use crate::text::{chars_or, str_chars, str_or, string_chars};

verus! {

/// Status of a served challenge proof.
pub const STATUS_OK: u16 = 200;

/// Status of a redirect to HTTPS.
pub const STATUS_PERMANENT_REDIRECT: u16 = 308;

/// Status of a request without a usable `Host`.
pub const STATUS_NOT_FOUND: u16 = 404;

/// The host that http's URI grammar finds in a `Host` header value, if it parses.
pub uninterp spec fn uri_host_of(value: Seq<char>) -> Option<Seq<char>>;

/// Relies on `http::Uri::from_str` and `Uri::host` (through hyper): the value is parsed
/// as a URI and its host, if it has one, is returned.
#[verifier::external_body]
fn host_of(value: &str) -> (r: Option<String>)
    ensures
        string_chars(r) == uri_host_of(value@),
{
    value.parse::<hyper::Uri>().ok().as_ref().and_then(hyper::Uri::host).map(str::to_owned)
}

/// A reply of the plaintext listener.
pub struct PlainReply {
    pub status: u16,
    pub location: Option<String>,
    pub body: String,
}

/// What a reply holds.
pub struct PlainReplySpec {
    pub status: u16,
    pub location: Option<Seq<char>>,
    pub body: Seq<char>,
}

impl View for PlainReply {
    type V = PlainReplySpec;

    open spec fn view(&self) -> PlainReplySpec {
        PlainReplySpec {
            status: self.status,
            location: string_chars(self.location),
            body: self.body@,
        }
    }
}

/// The HTTPS address of the same resource.
pub open spec fn https_location(host: Seq<char>, path_and_query: Seq<char>) -> Seq<char> {
    "https://"@ + host + ":8443"@ + path_and_query
}

/// The reply to a request for `path_and_query` (`/` where absent) on `host` (`None`
/// where the request names no usable host), given the published challenges.
pub open spec fn plain_reply_spec(
    challenges: Map<Seq<char>, Challenge>,
    host: Option<Seq<char>>,
    path_and_query: Option<Seq<char>>,
) -> PlainReplySpec {
    let path = chars_or(path_and_query, "/"@);
    match host {
        None => PlainReplySpec { status: 404, location: None, body: Seq::empty() },
        Some(h) => if challenges.contains_key(h) && challenges[h].path@ == path {
            PlainReplySpec { status: 200, location: None, body: challenges[h].proof@ }
        } else {
            PlainReplySpec {
                status: 308,
                location: Some(https_location(h, path)),
                body: Seq::empty(),
            }
        },
    }
}

/// The reply for a request whose host is already known.
pub fn reply_for_host(
    challenges: &ChallengeRegistry,
    host: Option<&str>,
    path_and_query: Option<&str>,
) -> (r: PlainReply)
    ensures
        r@ == plain_reply_spec(challenges@, str_chars(host), str_chars(path_and_query)),
{
    match host {
        None => PlainReply { status: STATUS_NOT_FOUND, location: None, body: String::new() },
        Some(h) => {
            let path = str_or(path_and_query, "/");
            proof {
                reveal_strlit("/");
            }
            if let Some(challenge) = challenges.get(h) {
                if challenge.path == String::from_str(path) {
                    return PlainReply {
                        status: STATUS_OK,
                        location: None,
                        body: challenge.proof.clone(),
                    };
                }
            }
            let location = String::from_str("https://").concat(h).concat(":8443").concat(path);
            PlainReply { status: STATUS_PERMANENT_REDIRECT, location: Some(location), body: String::new() }
        },
    }
}

/// The reply to a request with the given `Host` header value (`None` where absent) for
/// `path_and_query`.
pub fn reply(
    challenges: &ChallengeRegistry,
    host_header: Option<&str>,
    path_and_query: Option<&str>,
) -> (r: PlainReply)
    ensures
        r@ == plain_reply_spec(
            challenges@,
            match host_header {
                Some(v) => uri_host_of(v@),
                None => None,
            },
            str_chars(path_and_query),
        ),
{
    match host_header {
        None => reply_for_host(challenges, None, path_and_query),
        Some(v) => match host_of(v) {
            None => reply_for_host(challenges, None, path_and_query),
            Some(h) => reply_for_host(challenges, Some(h.as_str()), path_and_query),
        },
    }
}

/// A published challenge takes precedence: a request on its host for its path is
/// answered `200` with its proof, whatever the redirect would have been.
pub proof fn lemma_challenge_precedence(
    challenges: Map<Seq<char>, Challenge>,
    host: Seq<char>,
    path_and_query: Option<Seq<char>>,
)
    requires
        challenges.contains_key(host),
        challenges[host].path@ == chars_or(path_and_query, "/"@),
    ensures
        plain_reply_spec(challenges, Some(host), path_and_query) == (PlainReplySpec {
            status: 200,
            location: None,
            body: challenges[host].proof@,
        }),
{
}

/// A request without a usable host is answered `404`, with no location and no body.
pub proof fn lemma_no_host_not_found(
    challenges: Map<Seq<char>, Challenge>,
    path_and_query: Option<Seq<char>>,
)
    ensures
        plain_reply_spec(challenges, None, path_and_query) == (PlainReplySpec {
            status: 404,
            location: None,
            body: Seq::empty(),
        }),
{
}

/// Without a challenge for the host, every request is redirected to the same host on
/// the HTTPS port, with its path and query kept (`/` where absent).
pub proof fn lemma_redirect_exact(
    challenges: Map<Seq<char>, Challenge>,
    host: Seq<char>,
    path_and_query: Option<Seq<char>>,
)
    requires
        !challenges.contains_key(host),
    ensures
        plain_reply_spec(challenges, Some(host), path_and_query) == (PlainReplySpec {
            status: 308,
            location: Some(https_location(host, chars_or(path_and_query, "/"@))),
            body: Seq::empty(),
        }),
{
}

} // verus!
