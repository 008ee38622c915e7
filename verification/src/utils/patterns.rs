//! Regular expression searches, as the `regex` crate performs them.
use vstd::prelude::*;

use crate::utils::url_parts::views;

verus! {

/// The texts of all successive non-overlapping matches of `pattern` in
/// `haystack`, in order (what `Regex::find_iter` yields); `None` when the
/// pattern does not compile.
pub uninterp spec fn regex_match_texts(pattern: Seq<char>, haystack: Seq<char>) -> Option<Seq<Seq<char>>>;

/// The text of the leftmost-first match of `pattern` in `haystack` (what
/// `Regex::find` returns); the outer `None` when the pattern does not compile.
pub uninterp spec fn regex_first_match(pattern: Seq<char>, haystack: Seq<char>) -> Option<Option<Seq<char>>>;

/// `regex::Regex::new` followed by `Regex::find_iter`, each match taken as its
/// text. The matching rules are not stated: the result is named
/// `regex_match_texts` of the pattern and the haystack.
#[verifier::external_body]
pub(crate) fn regex_find_all(pattern: &str, haystack: &str) -> (r: Option<Vec<String>>)
    ensures
        match r {
            Some(v) => regex_match_texts(pattern@, haystack@) == Some(views(v@)),
            None => regex_match_texts(pattern@, haystack@) is None,
        },
{
    match regex::Regex::new(pattern) {
        Ok(re) => Some(re.find_iter(haystack).map(|m| String::from(m.as_str())).collect()),
        Err(_) => None,
    }
}

/// `regex::Regex::new` followed by `Regex::find`, the match taken as its text.
/// The matching rules are not stated: the result is named `regex_first_match`
/// of the pattern and the haystack.
#[verifier::external_body]
pub(crate) fn regex_find(pattern: &str, haystack: &str) -> (r: Option<Option<String>>)
    ensures
        match r {
            Some(Some(m)) => regex_first_match(pattern@, haystack@) == Some(Some(m@)),
            Some(None) => regex_first_match(pattern@, haystack@) == Some(None::<Seq<char>>),
            None => regex_first_match(pattern@, haystack@) is None,
        },
{
    match regex::Regex::new(pattern) {
        Ok(re) => Some(re.find(haystack).map(|m| String::from(m.as_str()))),
        Err(_) => None,
    }
}

} // verus!
