//! Regular expressions, as the `regex` crate reads them.
//!
//! A pattern is kept as text and compiled where it is searched with, so
//! that every answer is a function of two strings.

use vstd::prelude::*;

verus! {

/// Whether `regex::Regex::new` accepts the pattern.
pub uninterp spec fn pattern_valid(pattern: Seq<char>) -> bool;

/// Whether the regular expression that `regex::Regex::new` makes of a valid
/// pattern matches somewhere in the text, as `regex::Regex::is_match` tells.
pub uninterp spec fn pattern_finds(pattern: Seq<char>, text: Seq<char>) -> bool;

/// `regex::Regex::new` on the pattern and then, where it gives a regular
/// expression, `regex::Regex::is_match` on the text. Both read nothing but
/// their arguments: whether the pattern compiles is a function of the
/// pattern, `pattern_valid`, and whether it matches is a function of the
/// pattern and the text, `pattern_finds`. Of what those functions are,
/// nothing is claimed.
#[verifier::external_body]
fn search(pattern: &str, text: &str) -> (r: Option<bool>)
    ensures
        r == if pattern_valid(pattern@) {
            Some(pattern_finds(pattern@, text@))
        } else {
            None::<bool>
        },
{
    match regex::Regex::new(pattern) {
        Ok(compiled) => Some(compiled.is_match(text)),
        Err(_) => None,
    }
}

/// Whether a pattern matches somewhere in a text. A pattern that does not
/// compile matches nothing.
pub open spec fn matches_somewhere(pattern: Seq<char>, text: Seq<char>) -> bool {
    pattern_valid(pattern) && pattern_finds(pattern, text)
}

/// Whether `pattern` is a regular expression.
pub fn compiles(pattern: &str) -> (r: bool)
    ensures
        r == pattern_valid(pattern@),
{
    search(pattern, "").is_some()
}

/// Whether `pattern` matches somewhere in `text`; a match need not cover the
/// whole text.
pub fn pattern_matches(pattern: &str, text: &str) -> (r: bool)
    ensures
        r == matches_somewhere(pattern@, text@),
{
    match search(pattern, text) {
        Some(found) => found,
        None => false,
    }
}

} // verus!
