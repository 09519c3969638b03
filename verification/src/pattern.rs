//! The calls into the `regex` crate, each behind a trusted wrapper whose
//! result is named by a spec function of the pattern and the text.
use vstd::prelude::*;

verus! {

/// What `regex::Regex::captures` gives for the regex compiled from `pattern`
/// on `text`: for each capture group, group 0 first, the matched text or
/// `None`; `None` for no match (and for a pattern that does not compile).
pub uninterp spec fn regex_captures(pattern: Seq<char>, text: Seq<char>) -> Option<
    Seq<Option<Seq<char>>>,
>;

/// What `regex::Regex::find` gives for the regex compiled from `pattern` on
/// `text`: the text of the leftmost-first match, or `None`.
pub uninterp spec fn regex_find(pattern: Seq<char>, text: Seq<char>) -> Option<Seq<char>>;

/// What `regex::Regex::is_match` gives for the regex compiled from `pattern`
/// on `text` (`false` for a pattern that does not compile).
pub uninterp spec fn regex_is_match(pattern: Seq<char>, text: Seq<char>) -> bool;

/// What `regex::Regex::captures_iter` yields for the regex compiled from
/// `pattern` on `text`, in order: the groups of each successive
/// non-overlapping match.
pub uninterp spec fn regex_captures_all(pattern: Seq<char>, text: Seq<char>) -> Seq<
    Seq<Option<Seq<char>>>,
>;

/// What `regex::Regex::replace_all` gives for the regex compiled from
/// `pattern` on `text` with the literal replacement `with`.
pub uninterp spec fn regex_replace_all(pattern: Seq<char>, text: Seq<char>, with: Seq<char>) -> Seq<
    char,
>;

/// Compiles `pattern` with `regex::Regex::new` and calls `Regex::captures`
/// on `text`; the contract claims only that the result is the named
/// `regex_captures` of the two, group by group. A pattern that does not
/// compile gives `None`.
#[verifier::external_body]
pub(crate) fn captures(pattern: &str, text: &str) -> (r: Option<Vec<Option<std::string::String>>>)
    ensures
        r.deep_view() == regex_captures(pattern@, text@),
{
    match regex::Regex::new(pattern) {
        Ok(re) => re.captures(text).map(
            |c| c.iter().map(|m| m.map(|m| m.as_str().to_string())).collect(),
        ),
        Err(_) => None,
    }
}

/// Compiles `pattern` with `regex::Regex::new` and calls `Regex::find` on
/// `text`; the contract claims only that the matched text is the named
/// `regex_find` of the two.
#[verifier::external_body]
pub(crate) fn find(pattern: &str, text: &str) -> (r: Option<std::string::String>)
    ensures
        r.deep_view() == regex_find(pattern@, text@),
{
    match regex::Regex::new(pattern) {
        Ok(re) => re.find(text).map(|m| m.as_str().to_string()),
        Err(_) => None,
    }
}

/// Compiles `pattern` with `regex::Regex::new` and calls `Regex::is_match`
/// on `text`; the contract claims only that the answer is the named
/// `regex_is_match` of the two.
#[verifier::external_body]
pub(crate) fn is_match(pattern: &str, text: &str) -> (r: bool)
    ensures
        r == regex_is_match(pattern@, text@),
{
    match regex::Regex::new(pattern) {
        Ok(re) => re.is_match(text),
        Err(_) => false,
    }
}

/// Compiles `pattern` with `regex::Regex::new` and collects what
/// `Regex::captures_iter` yields on `text`; the contract claims only that
/// the sequence is the named `regex_captures_all` of the two.
#[verifier::external_body]
pub(crate) fn captures_all(pattern: &str, text: &str) -> (r: Vec<Vec<Option<std::string::String>>>)
    ensures
        r.deep_view() == regex_captures_all(pattern@, text@),
{
    match regex::Regex::new(pattern) {
        Ok(re) => re.captures_iter(text).map(
            |c| c.iter().map(|m| m.map(|m| m.as_str().to_string())).collect(),
        ).collect(),
        Err(_) => Vec::new(),
    }
}

/// Compiles `pattern` with `regex::Regex::new` and calls
/// `Regex::replace_all` on `text` with the literal replacement `with`; the
/// contract claims only that the result is the named `regex_replace_all` of
/// the three.
#[verifier::external_body]
pub(crate) fn replace_all(pattern: &str, text: &str, with: &str) -> (r: std::string::String)
    ensures
        r@ == regex_replace_all(pattern@, text@, with@),
{
    match regex::Regex::new(pattern) {
        Ok(re) => re.replace_all(text, regex::NoExpand(with)).into_owned(),
        Err(_) => text.to_string(),
    }
}

/// Group `i` of a match, `None` where the group is absent.
pub open spec fn group(caps: Seq<Option<Seq<char>>>, i: int) -> Option<Seq<char>> {
    if 0 <= i < caps.len() {
        caps[i]
    } else {
        None
    }
}

/// Group `i` of a match, `None` where the group is absent.
pub fn get_group(caps: &Vec<Option<std::string::String>>, i: usize) -> (r: Option<
    std::string::String,
>)
    ensures
        r.deep_view() == group(caps.deep_view(), i as int),
{
    if i < caps.len() {
        match &caps[i] {
            Some(s) => Some(s.clone()),
            None => None,
        }
    } else {
        None
    }
}

} // verus!
