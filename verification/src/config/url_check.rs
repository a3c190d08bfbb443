//! Whether a text is a URL.

use vstd::prelude::*;

verus! {

/// Whether `url::Url::parse` takes a text for an absolute URL.
pub uninterp spec fn is_url(text: Seq<char>) -> bool;

/// `url::Url::parse`, of which only success or failure is kept: it depends on
/// the text alone.
#[verifier::external_body]
pub(crate) fn parses_as_url(text: &str) -> (r: bool)
    ensures
        r == is_url(text@),
{
    url::Url::parse(text).is_ok()
}

} // verus!
