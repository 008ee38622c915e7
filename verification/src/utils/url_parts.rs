//! The parts of a parsed URL that the beatmap link reader looks at.
use vstd::prelude::*;

verus! {

/// The views of a sequence of strings.
pub open spec fn views(v: Seq<String>) -> Seq<Seq<char>> {
    v.map_values(|x: String| x@)
}

/// The abstract value of a parsed URL: its fragment (after `#`), its
/// path, the segments of its path and its query (after `?`).
pub struct UrlView {
    pub fragment: Option<Seq<char>>,
    pub path: Seq<char>,
    pub path_segments: Option<Seq<Seq<char>>>,
    pub query: Option<Seq<char>>,
}

/// A parsed URL, held as plain strings.
pub struct UrlParts {
    pub fragment: Option<String>,
    pub path: String,
    pub path_segments: Option<Vec<String>>,
    pub query: Option<String>,
}

impl View for UrlParts {
    type V = UrlView;

    open spec fn view(&self) -> UrlView {
        UrlView {
            fragment: match self.fragment {
                Some(f) => Some(f@),
                None => None,
            },
            path: self.path@,
            path_segments: match self.path_segments {
                Some(v) => Some(views(v@)),
                None => None,
            },
            query: match self.query {
                Some(q) => Some(q@),
                None => None,
            },
        }
    }
}

/// What `Url::parse` (the URL type that `reqwest` re-exports) makes of a text,
/// read through `fragment`, `path`, `path_segments` and `query`; `None` when
/// the text is no valid absolute URL.
pub uninterp spec fn url_parse_result(text: Seq<char>) -> Option<UrlView>;

/// `reqwest::Url::parse`, followed by the accessors `fragment`, `path`,
/// `path_segments` and `query` of the parsed value. The WHATWG parsing rules
/// are not stated: the contract only says that the outcome is a function of
/// the text, named `url_parse_result`.
#[verifier::external_body]
pub(crate) fn parse_url(text: &str) -> (r: Option<UrlParts>)
    ensures
        match r {
            Some(p) => url_parse_result(text@) == Some(p@),
            None => url_parse_result(text@) is None,
        },
{
    match reqwest::Url::parse(text) {
        Ok(url) => Some(UrlParts {
            fragment: url.fragment().map(String::from),
            path: String::from(url.path()),
            path_segments: url.path_segments().map(|segments| segments.map(String::from).collect()),
            query: url.query().map(String::from),
        }),
        Err(_) => None,
    }
}

} // verus!
