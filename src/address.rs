//! Addresses of packages and sources, read and joined by the url crate.
use vstd::prelude::*;

verus! {

/// The text of a string that may be absent.
pub open spec fn opt_text(o: Option<String>) -> Option<Seq<char>> {
    match o {
        Some(s) => Some(s@),
        None => None,
    }
}

/// What `Url::join` gives for `rel` against the parsed `base`; `None` where
/// either fails.
pub uninterp spec fn url_join(base: Seq<char>, rel: Seq<char>) -> Option<Seq<char>>;

/// The scheme of a parsed address; `None` where it does not parse.
pub uninterp spec fn url_scheme(address: Seq<char>) -> Option<Seq<char>>;

/// Relies on url's `Url::parse` and `Url::join`: the address of `rel`
/// relative to `base`, as text.
#[verifier::external_body]
pub(crate) fn join_url(base: &str, rel: &str) -> (r: Option<String>)
    ensures
        opt_text(r) == url_join(base@, rel@),
{
    match url::Url::parse(base) {
        Ok(b) => match b.join(rel) {
            Ok(u) => Some(u.to_string()),
            Err(_) => None,
        },
        Err(_) => None,
    }
}

/// Relies on url's `Url::parse` and `Url::scheme`: the scheme of the
/// address.
#[verifier::external_body]
pub(crate) fn scheme_of(address: &str) -> (r: Option<String>)
    ensures
        opt_text(r) == url_scheme(address@),
{
    match url::Url::parse(address) {
        Ok(u) => Some(u.scheme().to_string()),
        Err(_) => None,
    }
}

} // verus!
