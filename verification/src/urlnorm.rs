//! URL normalization: parse a candidate as an absolute URL, clear any
//! fragment, extract the host, and re-serialize, so that downstream
//! equality is stable.  The work is done by the `url` crate; its result
//! is a function of the input string alone, so it is given a name that
//! the contracts downstream speak of.

use vstd::prelude::*;

verus! {

/// What normalizing a candidate URL yields: `None` when the string does
/// not parse as an absolute URL or has no host; otherwise the
/// re-serialized URL with its fragment cleared, paired with its host.
pub uninterp spec fn norm_of(s: Seq<char>) -> Option<(Seq<char>, Seq<char>)>;

/// Whether a candidate URL is accepted by the normalizer.
pub open spec fn url_accepted(s: Seq<char>) -> bool {
    norm_of(s) is Some
}

/// The normalized form of an accepted candidate URL.
pub open spec fn norm_url(s: Seq<char>) -> Seq<char> {
    norm_of(s)->Some_0.0
}

/// The host of an accepted candidate URL.
pub open spec fn norm_host(s: Seq<char>) -> Seq<char> {
    norm_of(s)->Some_0.1
}

/// Relies on `url::Url`: `parse` accepts exactly the absolute URLs,
/// `set_fragment(None)` clears the fragment, `host_str` is the host when
/// there is one, and `as_str` re-serializes.  The result depends on the
/// input alone, and is named `norm_of`.
#[verifier::external_body]
pub fn normalize_url(raw: &str) -> (r: Option<(String, String)>)
    ensures
        r is Some <==> norm_of(raw@) is Some,
        r matches Some(p) ==> norm_of(raw@) == Some((p.0@, p.1@)),
{
    match url::Url::parse(raw) {
        Ok(mut parsed) => {
            parsed.set_fragment(None);
            match parsed.host_str() {
                Some(host) => {
                    let host = host.to_string();
                    Some((parsed.as_str().to_string(), host))
                }
                None => None,
            }
        }
        Err(_) => None,
    }
}

} // verus!
