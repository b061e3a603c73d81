//! Recognizing tokens that must keep their spelling.
//!
//! A token that parses as a URL (scheme optional) or as an email address
//! is exempt from letter substitution.  The recognition itself is done by
//! the `linkify` crate; the engine only consumes its yes/no verdict.

use vstd::prelude::*;

verus! {

/// Whether `linkify` finds a URL or email address in the given text.
/// The verdict is a fixed function of the characters alone.
pub uninterp spec fn is_link_of(s: Seq<char>) -> bool;

/// Relies on `linkify::LinkFinder::links`: configured for URL and email
/// kinds with schemes optional, it scans the text and yields each link
/// found; the scan reads nothing but the text.
#[verifier::external_body]
pub(crate) fn is_link(tok: &Vec<char>) -> (r: bool)
    ensures
        r == is_link_of(tok@),
{
    let text: String = tok.iter().collect();
    let mut finder = linkify::LinkFinder::new();
    finder.kinds(&[linkify::LinkKind::Email, linkify::LinkKind::Url]);
    finder.url_must_have_scheme(false);
    finder.links(&text).next().is_some()
}

} // verus!
