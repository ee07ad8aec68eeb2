//! Resolving a route against a base URL, through the `url` crate.

use vstd::prelude::*;

verus! {

/// What resolving `rel` against the base URL text `base` gives: the
/// serialized absolute URL, or nothing when `base` does not parse as an
/// absolute URL or `rel` cannot be resolved against it.  The outcome is a
/// function of the two strings alone.
pub uninterp spec fn url_join_of(base: Seq<char>, rel: Seq<char>) -> Option<Seq<char>>;

/// Relies on `url::Url::parse` and `url::Url::join`: parsing `base` and
/// resolving `rel` against it per the URL standard, both deterministic
/// functions of their string arguments; `Url::as_str` serializes the
/// resolved URL.  On failure the error's text is returned.
#[verifier::external_body]
pub(crate) fn url_join(base: &str, rel: &str) -> (r: Result<String, String>)
    ensures
        match r {
            Ok(u) => url_join_of(base@, rel@) == Some(u@),
            Err(_) => url_join_of(base@, rel@) is None,
        },
{
    match url::Url::parse(base) {
        Ok(b) => match b.join(rel) {
            Ok(j) => Ok(String::from(j.as_str())),
            Err(e) => Err(format!("{}", e)),
        },
        Err(e) => Err(format!("{}", e)),
    }
}

} // verus!
