//! Host-name normalization, done by the `url` crate.

use vstd::prelude::*;

verus! {

/// The normalized text form of a host name: `Some` exactly when host
/// parsing accepts the input, and then the text of the parsed host.  The
/// outcome depends on the input characters alone.
pub uninterp spec fn host_norm(s: Seq<char>) -> Option<Seq<char>>;

/// Relies on `url::Host::parse` and on the text form of `url::Host` (its
/// `Display` impl): parsing normalizes a host name (IDNA ASCII domains,
/// canonical dotted IPv4, bracketed lowercase IPv6) as a pure function of
/// the input characters, and the text form of every parsed host is ASCII.
#[verifier::external_body]
pub(crate) fn normalized_host(s: &str) -> (r: Option<String>)
    ensures
        r is Some <==> host_norm(s@) is Some,
        r matches Some(h) ==> Some(h@) == host_norm(s@) && h.is_ascii(),
{
    match url::Host::parse(s) {
        Ok(h) => Some(h.to_string()),
        Err(_) => None,
    }
}

} // verus!
