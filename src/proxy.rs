//! Routing of requests on the TLS listener: ordinary requests go to the backend,
//! `CONNECT` requests open a tunnel to the address they name.

use vstd::prelude::*;
use crate::text::{chars_or, str_chars, str_or};

verus! {

/// Scheme, host and port of the backend that ordinary requests are forwarded to,
/// after the scheme.
pub open spec fn backend_authority() -> Seq<char> {
    "://localhost:1111"@
}

/// The backend URI for a request with the given scheme (`http` where absent) and path
/// and query (`/` where absent).
pub open spec fn backend_uri_spec(scheme: Option<Seq<char>>, path_and_query: Option<Seq<char>>) -> Seq<char> {
    chars_or(scheme, "http"@) + backend_authority() + chars_or(path_and_query, "/"@)
}

/// The backend URI that a request is rewritten to.
pub fn backend_uri(scheme: Option<&str>, path_and_query: Option<&str>) -> (r: String)
    ensures
        r@ == backend_uri_spec(str_chars(scheme), str_chars(path_and_query)),
{
    let scheme = str_or(scheme, "http");
    let path = str_or(path_and_query, "/");
    String::from_str(scheme).concat("://localhost:1111").concat(path)
}

/// Whether `c` is an ASCII decimal digit.
pub open spec fn is_digit(c: char) -> bool {
    '0' <= c && c <= '9'
}

/// The number that a string of decimal digits denotes.
pub open spec fn digits_value(s: Seq<char>) -> nat
    decreases s.len(),
{
    if s.len() == 0 {
        0
    } else {
        digits_value(s.drop_last()) * 10 + (s.last() as nat - '0' as nat) as nat
    }
}

/// The index of the last `:` in `s`, or -1 where there is none.
pub open spec fn last_colon(s: Seq<char>) -> int
    decreases s.len(),
{
    if s.len() == 0 {
        -1
    } else if s.last() == ':' {
        s.len() - 1
    } else {
        last_colon(s.drop_last())
    }
}

/// Whether `s` is a port: one to five decimal digits that denote at most 65535.
pub open spec fn is_port(s: Seq<char>) -> bool {
    &&& 1 <= s.len() <= 5
    &&& forall|i: int| 0 <= i < s.len() ==> is_digit(#[trigger] s[i])
    &&& digits_value(s) <= 65535
}

/// The host and port that a `CONNECT` authority names: the text before its last `:`,
/// which must not be empty, and the port after it.
pub open spec fn connect_target_spec(authority: Seq<char>) -> Option<(Seq<char>, u16)> {
    let i = last_colon(authority);
    let port = authority.skip(i + 1);
    if i >= 1 && is_port(port) {
        Some((authority.take(i), digits_value(port) as u16))
    } else {
        None
    }
}

/// The upstream end of a tunnel.
pub struct ConnectTarget {
    pub host: String,
    pub port: u16,
}

proof fn lemma_last_colon_bounds(s: Seq<char>)
    ensures
        -1 <= last_colon(s) < s.len(),
        last_colon(s) >= 0 ==> s[last_colon(s)] == ':',
        forall|j: int| last_colon(s) < j < s.len() ==> s[j] != ':',
    decreases s.len(),
{
    if s.len() > 0 && s.last() != ':' {
        let t = s.drop_last();
        lemma_last_colon_bounds(t);
        assert forall|j: int| last_colon(s) < j < s.len() implies s[j] != ':' by {
            if j < s.len() - 1 {
                assert(s[j] == t[j]);
            }
        }
    }
}

/// The index of the last `:` in `s`.
fn find_last_colon(s: &str) -> (r: Option<usize>)
    ensures
        match r {
            Some(i) => i as int == last_colon(s@),
            None => last_colon(s@) == -1,
        },
{
    let n = s.unicode_len();
    let mut k: usize = n;
    assert(s@.take(n as int) =~= s@);
    while k > 0
        invariant
            k <= n == s@.len(),
            last_colon(s@) == last_colon(s@.take(k as int)),
        decreases k,
    {
        assert(s@.take(k as int).drop_last() =~= s@.take(k - 1));
        if s.get_char(k - 1) == ':' {
            return Some(k - 1);
        }
        k = k - 1;
    }
    assert(s@.take(0) =~= Seq::<char>::empty());
    None
}

/// The port that `s` names, if it is one.
fn parse_port(s: &str) -> (r: Option<u16>)
    ensures
        match r {
            Some(p) => is_port(s@) && p as nat == digits_value(s@),
            None => !is_port(s@),
        },
{
    let n = s.unicode_len();
    if n == 0 || n > 5 {
        return None;
    }
    let mut value: u32 = 0;
    let mut k: usize = 0;
    while k < n
        invariant
            k <= n == s@.len() <= 5,
            forall|i: int| 0 <= i < k ==> is_digit(#[trigger] s@[i]),
            value as nat == digits_value(s@.take(k as int)),
            value < 100000,
            digits_value(s@.take(k as int)) < pow10(k as nat),
        decreases n - k,
    {
        let c = s.get_char(k);
        if c < '0' || c > '9' {
            return None;
        }
        assert(s@.take(k + 1).drop_last() =~= s@.take(k as int));
        let digit = (c as u32) - ('0' as u32);
        assert(pow10((k + 1) as nat) == pow10(k as nat) * 10);
        assert(value * 10 + digit < pow10((k + 1) as nat)) by (nonlinear_arith)
            requires
                value < pow10(k as nat),
                digit <= 9,
        ;
        proof {
            lemma_pow10_small((k + 1) as nat);
        }
        value = value * 10 + digit;
        k = k + 1;
    }
    assert(s@.take(n as int) =~= s@);
    if value > 65535 {
        None
    } else {
        Some(value as u16)
    }
}

/// Ten to the power `k`.
pub open spec fn pow10(k: nat) -> nat
    decreases k,
{
    if k == 0 {
        1
    } else {
        pow10((k - 1) as nat) * 10
    }
}

proof fn lemma_pow10_small(k: nat)
    requires
        k <= 5,
    ensures
        pow10(k) <= 100000,
{
    reveal_with_fuel(pow10, 6);
}

/// The host and port that a `CONNECT` authority names, if it names them.
pub fn parse_connect_target(authority: &str) -> (r: Option<ConnectTarget>)
    ensures
        match connect_target_spec(authority@) {
            Some((host, port)) => (r matches Some(t) && t.host@ == host && t.port == port),
            None => r is None,
        },
{
    proof {
        lemma_last_colon_bounds(authority@);
    }
    let n = authority.unicode_len();
    match find_last_colon(authority) {
        None => None,
        Some(i) => {
            if i == 0 {
                return None;
            }
            let port_text = authority.substring_char(i + 1, n);
            assert(port_text@ =~= authority@.skip(i + 1));
            match parse_port(port_text) {
                None => None,
                Some(port) => {
                    let host = authority.substring_char(0, i);
                    assert(host@ =~= authority@.take(i as int));
                    Some(ConnectTarget { host: String::from_str(host), port })
                },
            }
        },
    }
}

/// What the TLS listener does with a request.
pub enum Route {
    /// Forward the request, rewritten to this backend URI.
    Forward(String),
    /// Answer `200` and relay the upgraded connection to this address.
    Tunnel(ConnectTarget),
    /// Answer `400`: the `CONNECT` authority names no address.
    Reject,
}

/// Status of an established tunnel.
pub const STATUS_TUNNEL_OPEN: u16 = 200;

/// Status of a `CONNECT` whose authority names no address.
pub const STATUS_BAD_REQUEST: u16 = 400;

impl Route {
    /// The status this listener answers with itself; `None` where the backend answers.
    pub fn reply_status(&self) -> (r: Option<u16>)
        ensures
            r == match self {
                Route::Forward(_) => None,
                Route::Tunnel(_) => Some(200u16),
                Route::Reject => Some(400u16),
            },
    {
        match self {
            Route::Forward(_) => None,
            Route::Tunnel(_) => Some(STATUS_TUNNEL_OPEN),
            Route::Reject => Some(STATUS_BAD_REQUEST),
        }
    }
}

/// How a request is routed: a `CONNECT` tunnels to its authority, or is rejected where
/// that names no address; any other request is forwarded to the backend.
pub fn route(
    is_connect: bool,
    authority: Option<&str>,
    scheme: Option<&str>,
    path_and_query: Option<&str>,
) -> (r: Route)
    ensures
        is_connect ==> match authority {
            Some(a) => match connect_target_spec(a@) {
                Some((host, port)) => (r matches Route::Tunnel(t) && t.host@ == host && t.port
                    == port),
                None => r is Reject,
            },
            None => r is Reject,
        },
        !is_connect ==> (r matches Route::Forward(uri) && uri@ == backend_uri_spec(
            str_chars(scheme),
            str_chars(path_and_query),
        )),
{
    if is_connect {
        match authority {
            None => Route::Reject,
            Some(a) => match parse_connect_target(a) {
                Some(t) => Route::Tunnel(t),
                None => Route::Reject,
            },
        }
    } else {
        Route::Forward(backend_uri(scheme, path_and_query))
    }
}

} // verus!
