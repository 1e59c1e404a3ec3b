//! Choosing the proxy that the HTTP agent of a transport goes through.

use vstd::prelude::*;

verus! {

/// The scheme of the destination that envelopes are submitted to.
#[derive(Clone, Copy, Debug, PartialEq, Eq, Structural)]
pub enum Scheme {
    Http,
    Https,
}

/// Whether `ureq` accepts `s` as a proxy address.
pub uninterp spec fn proxy_accepted(s: Seq<char>) -> bool;

/// Relies on `ureq::Proxy::new`: it parses the address as a URI with an
/// authority and a known protocol, so its answer depends on the string alone.
#[verifier::external_body]
fn ureq_accepts_proxy(s: &str) -> (r: bool)
    ensures
        r == proxy_accepted(s@),
{
    ureq::Proxy::new(s).is_ok()
}

/// The proxy that a transport uses, by precedence: a valid secure proxy for a
/// secure destination, else a valid general proxy, else none.
pub open spec fn chosen_proxy(
    scheme: Scheme,
    https_proxy: Option<Seq<char>>,
    http_proxy: Option<Seq<char>>,
) -> Option<Seq<char>> {
    if scheme == Scheme::Https && https_proxy is Some && proxy_accepted(https_proxy->0) {
        https_proxy
    } else if http_proxy is Some && proxy_accepted(http_proxy->0) {
        http_proxy
    } else {
        None
    }
}

/// The view of an optional proxy string.
pub open spec fn opt_view(o: Option<String>) -> Option<Seq<char>> {
    match o {
        Some(s) => Some(s@),
        None => None,
    }
}

/// A proxy address that `ureq` accepts.
#[derive(Clone, Debug)]
pub struct Proxy {
    pub url: String,
}

impl Proxy {
    /// Validates a proxy address; `None` when `ureq` refuses it.
    pub fn new(s: &str) -> (r: Option<Proxy>)
        ensures
            r is Some <==> proxy_accepted(s@),
            r is Some ==> r->0.url@ == s@,
    {
        if ureq_accepts_proxy(s) {
            Some(Proxy { url: s.to_owned() })
        } else {
            None
        }
    }
}

/// Picks the proxy for a destination of `scheme`: a valid secure proxy when the
/// destination is secure, else a valid general proxy, else none. A malformed
/// address is passed over, never an error.
pub fn select_proxy(scheme: Scheme, https_proxy: &Option<String>, http_proxy: &Option<String>) -> (r:
    Option<Proxy>)
    ensures
        match r {
            Some(p) => chosen_proxy(scheme, opt_view(*https_proxy), opt_view(*http_proxy)) == Some(
                p.url@,
            ),
            None => chosen_proxy(scheme, opt_view(*https_proxy), opt_view(*http_proxy)) is None,
        },
{
    if scheme == Scheme::Https {
        if let Some(p) = https_proxy {
            let secure = Proxy::new(p.as_str());
            if secure.is_some() {
                return secure;
            }
        }
    }
    match http_proxy {
        Some(p) => Proxy::new(p.as_str()),
        None => None,
    }
}

/// A malformed proxy address has the same effect as no address at all: the
/// choice made with it equals the choice made without it.
pub proof fn lemma_invalid_proxy_is_absent(
    scheme: Scheme,
    https_proxy: Option<Seq<char>>,
    http_proxy: Option<Seq<char>>,
)
    ensures
        https_proxy is Some && !proxy_accepted(https_proxy->0) ==> chosen_proxy(
            scheme,
            https_proxy,
            http_proxy,
        ) == chosen_proxy(scheme, None, http_proxy),
        http_proxy is Some && !proxy_accepted(http_proxy->0) ==> chosen_proxy(
            scheme,
            https_proxy,
            http_proxy,
        ) == chosen_proxy(scheme, https_proxy, None),
{
}

} // verus!
