//! Regular expressions, computed by the `regex` crate.
use vstd::prelude::*;

verus! {

/// What `regex::Regex::new` gives for `pattern`: `None` when it compiles,
/// else the text (`Display`) of the error it returns.
pub uninterp spec fn regex_compile_error(pattern: Seq<char>) -> Option<Seq<char>>;

/// Whether the regex compiled from `pattern` matches anywhere in `text`
/// (`Regex::is_match`).
pub uninterp spec fn regex_finds(pattern: Seq<char>, text: Seq<char>) -> bool;

/// The text of capture group `group` of the first match of `pattern` in
/// `text` (`Regex::captures`, then `Captures::get`), if there is a match and
/// the group took part in it.
pub uninterp spec fn regex_group(pattern: Seq<char>, text: Seq<char>, group: usize) -> Option<
    Seq<char>,
>;

/// Compiles `pattern` with `regex::Regex::new`: `None` when it compiles,
/// else the text of the error.  The contract ties the result to the pattern
/// through `regex_compile_error`; the regex grammar itself is not stated.
#[verifier::external_body]
pub(crate) fn regex_check(pattern: &str) -> (r: Option<String>)
    ensures
        match r {
            Some(m) => regex_compile_error(pattern@) == Some(m@),
            None => regex_compile_error(pattern@) is None,
        },
{
    match regex::Regex::new(pattern) {
        Ok(_) => None,
        Err(e) => Some(e.to_string()),
    }
}

/// `Regex::new(pattern)` then `Regex::is_match(text)`: whether the pattern
/// matches somewhere in `text`, as named by `regex_finds`.
#[verifier::external_body]
pub(crate) fn regex_is_match(pattern: &str, text: &str) -> (r: bool)
    requires
        regex_compile_error(pattern@) is None,
    ensures
        r == regex_finds(pattern@, text@),
{
    match regex::Regex::new(pattern) {
        Ok(re) => re.is_match(text),
        Err(_) => false,
    }
}

/// `Regex::new(pattern)`, `Regex::captures(text)`, `Captures::get(group)`:
/// the text of that capture group in the first match, as named by
/// `regex_group`.
#[verifier::external_body]
pub(crate) fn regex_capture(pattern: &str, text: &str, group: usize) -> (r: Option<String>)
    requires
        regex_compile_error(pattern@) is None,
    ensures
        match r {
            Some(g) => regex_group(pattern@, text@, group) == Some(g@),
            None => regex_group(pattern@, text@, group) is None,
        },
{
    match regex::Regex::new(pattern) {
        Ok(re) => match re.captures(text) {
            Some(caps) => match caps.get(group) {
                Some(m) => Some(m.as_str().to_string()),
                None => None,
            },
            None => None,
        },
        Err(_) => None,
    }
}

} // verus!
