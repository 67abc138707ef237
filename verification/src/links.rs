//! Link extraction: scans raw message text and yields the URL substrings,
//! duplicates preserved, in order of first appearance. The scan itself is
//! done by an outside crate; its result is named `found_links` and
//! everything downstream is specified against that name.

use vstd::prelude::*;

use crate::rewrite::space_free;

verus! {

/// The ordered sequence of URL substrings found in `text`: a function of
/// the text alone.
pub uninterp spec fn found_links(text: Seq<char>) -> Seq<Seq<char>>;

/// Relies on linkify's `LinkFinder` restricted to `LinkKind::Url`: it
/// yields the URL substrings of `text` in order of first appearance. Its
/// URL scanner never lets a space or a control character be part of a
/// URL, and a URL (scheme and host required) is never empty.
#[verifier::external_body]
pub(crate) fn extract_links(text: &str) -> (r: Vec<String>)
    ensures
        r.deep_view() == found_links(text@),
        forall|i: int|
            0 <= i < r.deep_view().len() ==> r.deep_view()[i].len() > 0 && space_free(
                r.deep_view()[i],
            ),
{
    let mut finder = linkify::LinkFinder::new();
    finder.kinds(&[linkify::LinkKind::Url]);
    finder.links(text).map(|l| l.as_str().to_string()).collect()
}

} // verus!
