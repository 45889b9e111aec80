//! Calls into the `regex` crate.
//!
//! Each call compiles the expression text it is given with
//! `regex::Regex::new` and applies one matching operation; what the crate
//! computes is a function of the expression and the text alone, and is named
//! here rather than written out.
use vstd::prelude::*;

verus! {

/// Whether `regex::Regex::is_match` finds a match of the expression
/// `pattern` in `text` (false when `pattern` does not compile).
pub uninterp spec fn regex_is_match(pattern: Seq<char>, text: Seq<char>) -> bool;

/// What `regex::Regex::replace_all` returns for the expression `pattern`,
/// the text and the replacement template (the text itself when `pattern`
/// does not compile).
pub uninterp spec fn regex_replace_all(pattern: Seq<char>, text: Seq<char>, template: Seq<char>) -> Seq<char>;

/// The text of capture group 1 of the first match that
/// `regex::Regex::captures` finds, if any (none when `pattern` does not
/// compile).
pub uninterp spec fn regex_first_group(pattern: Seq<char>, text: Seq<char>) -> Option<Seq<char>>;

/// For each match that `regex::Regex::captures_iter` yields, in order, the
/// text of each capture group after group 0 (`None` for a group that did not
/// take part); empty when `pattern` does not compile.
pub uninterp spec fn regex_all_captures(pattern: Seq<char>, text: Seq<char>) -> Seq<Seq<Option<Seq<char>>>>;

/// Calls `Regex::new(pattern)` and then `is_match` on the text.
#[verifier::external_body]
pub fn is_match(pattern: &str, text: &[char]) -> (r: bool)
    ensures
        r == regex_is_match(pattern@, text@),
{
    let t: String = text.iter().collect();
    match regex::Regex::new(pattern) {
        Ok(re) => re.is_match(&t),
        Err(_) => false,
    }
}

/// Calls `Regex::new(pattern)` and then `replace_all(text, template)`.
#[verifier::external_body]
pub fn replace_all(pattern: &str, text: &[char], template: &str) -> (r: Vec<char>)
    ensures
        r@ == regex_replace_all(pattern@, text@, template@),
{
    let t: String = text.iter().collect();
    match regex::Regex::new(pattern) {
        Ok(re) => re.replace_all(&t, template).chars().collect(),
        Err(_) => text.to_vec(),
    }
}

/// Calls `Regex::new(pattern)` and then `captures(text)`, keeping group 1.
#[verifier::external_body]
pub fn first_group(pattern: &str, text: &[char]) -> (r: Option<Vec<char>>)
    ensures
        r matches Some(g) ==> regex_first_group(pattern@, text@) == Some(g@),
        r is None ==> regex_first_group(pattern@, text@) is None,
{
    let t: String = text.iter().collect();
    match regex::Regex::new(pattern) {
        Ok(re) => re.captures(&t).and_then(|c| c.get(1)).map(|m| m.as_str().chars().collect()),
        Err(_) => None,
    }
}

/// Calls `Regex::new(pattern)` and then `captures_iter(text)`, keeping the
/// text of every group after group 0 of every match.
#[verifier::external_body]
pub fn all_captures(pattern: &str, text: &[char]) -> (r: Vec<Vec<Option<Vec<char>>>>)
    ensures
        r.deep_view() == regex_all_captures(pattern@, text@),
{
    let t: String = text.iter().collect();
    match regex::Regex::new(pattern) {
        Ok(re) => re.captures_iter(&t).map(|c| {
            c.iter().skip(1).map(|g| g.map(|m| m.as_str().chars().collect())).collect()
        }).collect(),
        Err(_) => Vec::new(),
    }
}

} // verus!
