//! Validating and canonicalising absolute URLs.
use vstd::prelude::*;

verus! {

/// The serialization of the absolute URL that a text parses as, if any.
pub uninterp spec fn url_serialization_of(text: Seq<char>) -> Option<Seq<char>>;

/// Relies on url::Url::parse and url::Url::as_str: parsing an absolute URL
/// either fails or yields a URL whose serialization depends on the text alone.
#[verifier::external_body]
pub(crate) fn parse_absolute(text: &str) -> (r: Option<String>)
    ensures
        match url_serialization_of(text@) {
            None => r is None,
            Some(t) => r is Some && r.unwrap()@ == t,
        },
{
    url::Url::parse(text).ok().map(|u| u.as_str().to_string())
}

} // verus!
