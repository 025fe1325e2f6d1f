//! Regular expressions, matched by the `regex` crate.
//!
//! The library names what a match returns rather than restating the regex
//! engine; the functions that use a match are proved against that name.
use vstd::prelude::*;
use crate::text::{owned, trim, trim_spec};

verus! {

/// What compiling `pattern` with `regex::Regex::new` and calling
/// `Regex::replace_all(text, replacement)` yields; `None` when the pattern
/// does not compile.
pub uninterp spec fn regex_replace_all(pattern: Seq<char>, text: Seq<char>, replacement: Seq<char>) -> Option<Seq<char>>;

/// The characters of an optional string.
pub open spec fn opt_view(r: Option<String>) -> Option<Seq<char>> {
    match r {
        Some(s) => Some(s@),
        None => None,
    }
}

/// The replaced text, or the text unchanged when there is none.
pub open spec fn or_keep(r: Option<Seq<char>>, t: Seq<char>) -> Seq<char> {
    match r {
        Some(s) => s,
        None => t,
    }
}

/// Calls `regex::Regex::new(pattern)` and then `Regex::replace_all`.
/// Claims only that the result is the named value of the three arguments:
/// nothing is stated about which text a pattern matches.
#[verifier::external_body]
pub(crate) fn replace_all_matches(pattern: &str, text: &str, replacement: &str) -> (r: Option<String>)
    ensures
        opt_view(r) == regex_replace_all(pattern@, text@, replacement@),
{
    match regex::Regex::new(pattern) {
        Ok(re) => Some(re.replace_all(text, replacement).into_owned()),
        Err(_) => None,
    }
}

/// Replaces every match of `pattern` in `text`, keeping the text when the
/// pattern does not compile.
pub fn replace_pattern(pattern: &str, text: &str, replacement: &str) -> (r: String)
    ensures
        r@ == or_keep(regex_replace_all(pattern@, text@, replacement@), text@),
{
    match replace_all_matches(pattern, text, replacement) {
        Some(s) => s,
        None => owned(text),
    }
}


/// Characters that file and folder names may not hold on Windows.
pub const FORBIDDEN_NAME_CHARS: &'static str = "[<>:\"/\\\\|?*]";

/// A name safe for the file system: every forbidden character replaced by
/// `_`, trimmed; `fallback` when nothing is left.
pub open spec fn safe_name_spec(name: Seq<char>, fallback: Seq<char>) -> Seq<char> {
    let cleaned = trim_spec(or_keep(regex_replace_all(FORBIDDEN_NAME_CHARS@, name, "_"@), name));
    if cleaned.len() == 0 { fallback } else { cleaned }
}

/// Makes a name safe for the file system.
pub fn safe_name(name: &str, fallback: &str) -> (r: String)
    ensures
        r@ == safe_name_spec(name@, fallback@),
{
    let replaced = replace_pattern(FORBIDDEN_NAME_CHARS, name, "_");
    let cleaned = trim(replaced.as_str());
    if cleaned.as_str().is_empty() { owned(fallback) } else { cleaned }
}


/// What compiling `pattern` with `regex::Regex::new` and collecting the
/// texts of `Regex::find_iter(text)` yields, in order; `None` when the
/// pattern does not compile.
pub uninterp spec fn regex_find_all(pattern: Seq<char>, text: Seq<char>) -> Option<Seq<Seq<char>>>;

/// The texts of an optional list of strings.
pub open spec fn opt_views(r: Option<Vec<String>>) -> Option<Seq<Seq<char>>> {
    match r {
        Some(v) => Some(v@.map_values(|s: String| s@)),
        None => None,
    }
}

/// Calls `regex::Regex::new(pattern)` and collects the matched texts of
/// `Regex::find_iter(text)`. Claims only that the result is the named value
/// of the two arguments: nothing is stated about which texts match.
#[verifier::external_body]
pub(crate) fn find_all_matches(pattern: &str, text: &str) -> (r: Option<Vec<String>>)
    ensures
        opt_views(r) == regex_find_all(pattern@, text@),
{
    match regex::Regex::new(pattern) {
        Ok(re) => Some(re.find_iter(text).map(|m| m.as_str().to_string()).collect()),
        Err(_) => None,
    }
}

/// What compiling `pattern` with `regex::Regex::new` and collecting
/// `Regex::captures_iter(text)` yields: for each match in order, the text
/// of every group (group 0 being the whole match), `None` for a group that
/// took no part in it; `None` when the pattern does not compile.
pub uninterp spec fn regex_captures_all(pattern: Seq<char>, text: Seq<char>) -> Option<Seq<Seq<Option<Seq<char>>>>>;

/// The texts of the groups of one match.
pub open spec fn groups_view(g: Vec<Option<String>>) -> Seq<Option<Seq<char>>> {
    g@.map_values(|x: Option<String>| opt_view(x))
}

/// The texts of the groups of every match.
pub open spec fn opt_captures(r: Option<Vec<Vec<Option<String>>>>) -> Option<Seq<Seq<Option<Seq<char>>>>> {
    match r {
        Some(v) => Some(v@.map_values(|g: Vec<Option<String>>| groups_view(g))),
        None => None,
    }
}

/// Calls `regex::Regex::new(pattern)` and collects, for each item of
/// `Regex::captures_iter(text)`, the texts of its groups. Claims only that
/// the result is the named value of the two arguments: nothing is stated
/// about which texts match.
#[verifier::external_body]
pub(crate) fn captures_all(pattern: &str, text: &str) -> (r: Option<Vec<Vec<Option<String>>>>)
    ensures
        opt_captures(r) == regex_captures_all(pattern@, text@),
{
    match regex::Regex::new(pattern) {
        Ok(re) => Some(
            re.captures_iter(text)
                .map(|c| c.iter().map(|g| g.map(|m| m.as_str().to_string())).collect())
                .collect(),
        ),
        Err(_) => None,
    }
}

} // verus!
