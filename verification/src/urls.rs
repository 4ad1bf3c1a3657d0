//! URL parsing, as the `url` crate does it.

use vstd::prelude::*;

verus! {

/// What `url::Url::parse` gives for a text: the path of the URL when the
/// text parses as an absolute URL, nothing when it does not.
pub uninterp spec fn url_path_of(s: Seq<char>) -> Option<Seq<char>>;

/// `url::Url::parse(s)`, keeping the parsed URL's `path()`. Whether the text
/// parses, and the path, depend on the text alone.
#[verifier::external_body]
pub(crate) fn parse_url_path(s: &str) -> (r: Option<String>)
    ensures
        match r {
            Some(p) => url_path_of(s@) == Some(p@),
            None => url_path_of(s@) is None,
        },
{
    url::Url::parse(s).ok().map(|u| u.path().to_string())
}

} // verus!
