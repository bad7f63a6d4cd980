//! What the URL parser says of an upstream address.

use vstd::prelude::*;

verus! {

/// The verdict of `reqwest::Url::parse` on `text`: `None` where the text is
/// no absolute URL, otherwise `Some(h)` with `h` telling whether the parsed
/// URL names a host.
pub uninterp spec fn upstream_url_host(text: Seq<char>) -> Option<bool>;

/// An upstream address is usable when it parses as an absolute URL that has
/// a host. This is the test the HTTP client applies before it sends.
pub open spec fn valid_upstream(text: Seq<char>) -> bool {
    upstream_url_host(text) == Some(true)
}

/// Calls `reqwest::Url::parse` and, on success, `Url::has_host`.
///
/// Trusted: the parser is a function of the text alone, so its verdict is
/// given the name `upstream_url_host`; nothing else is claimed of it.
#[verifier::external_body]
pub(crate) fn probe_upstream_url(text: &str) -> (verdict: Option<bool>)
    ensures
        verdict == upstream_url_host(text@),
{
    match reqwest::Url::parse(text) {
        Ok(url) => Some(url.has_host()),
        Err(_) => None,
    }
}

/// Tells whether `text` is usable as an upstream base address.
pub fn is_valid_upstream(text: &str) -> (ok: bool)
    ensures
        ok == valid_upstream(text@),
{
    match probe_upstream_url(text) {
        Some(has_host) => has_host,
        None => false,
    }
}

} // verus!
