//! Regular expressions, as the `regex` crate reads and runs them.
//!
//! What a pattern matches is not spelled out here: each answer of the crate
//! is given a name, and the library's contracts speak of those names.

use crate::error::ConfigError;
use vstd::prelude::*;

verus! {

/// Whether `Regex::new` accepts `pattern`.
pub uninterp spec fn pattern_is_valid(pattern: Seq<char>) -> bool;

/// What `Regex::find` returns for a valid `pattern` in `text`: the text of
/// the leftmost match, or nothing.
pub uninterp spec fn first_match(pattern: Seq<char>, text: Seq<char>) -> Option<Seq<char>>;

/// What `Regex::replace_all` returns for a valid `pattern`: `text` with every
/// match replaced as `with` says.
pub uninterp spec fn matches_replaced(
    pattern: Seq<char>,
    text: Seq<char>,
    with: Seq<char>,
) -> Seq<char>;

/// An optional string as an optional text.
pub open spec fn optional_text(s: Option<String>) -> Option<Seq<char>> {
    match s {
        Some(t) => Some(t@),
        None => None,
    }
}

/// Compiles `pattern` with `Regex::new` and searches `text` with
/// `Regex::find`. The outcome is an error exactly when the crate refuses the
/// pattern; otherwise it is the text of the leftmost match, which depends on
/// the pattern and the text alone.
#[verifier::external_body]
pub(crate) fn find_match(pattern: &str, text: &str) -> (r: Result<Option<String>, ConfigError>)
    ensures
        r is Ok <==> pattern_is_valid(pattern@),
        r matches Ok(found) ==> optional_text(found) == first_match(pattern@, text@),
        r matches Err(e) ==> e == ConfigError::InvalidPattern,
{
    match regex::Regex::new(pattern) {
        Ok(re) => Ok(re.find(text).map(|m| m.as_str().to_string())),
        Err(_) => Err(ConfigError::InvalidPattern),
    }
}

/// Compiles `pattern` with `Regex::new` and asks `Regex::is_match` of `text`.
/// The crate documents that this is true exactly when `Regex::find` finds a
/// match.
#[verifier::external_body]
pub(crate) fn has_match(pattern: &str, text: &str) -> (r: Result<bool, ConfigError>)
    ensures
        r is Ok <==> pattern_is_valid(pattern@),
        r matches Ok(found) ==> found == first_match(pattern@, text@).is_some(),
        r matches Err(e) ==> e == ConfigError::InvalidPattern,
{
    match regex::Regex::new(pattern) {
        Ok(re) => Ok(re.is_match(text)),
        Err(_) => Err(ConfigError::InvalidPattern),
    }
}

/// Compiles `pattern` with `Regex::new` and rewrites `text` with
/// `Regex::replace_all`. The outcome is an error exactly when the crate
/// refuses the pattern; otherwise it depends on the three texts alone.
#[verifier::external_body]
pub(crate) fn replace_matches(pattern: &str, text: &str, with: &str) -> (r: Result<
    String,
    ConfigError,
>)
    ensures
        r is Ok <==> pattern_is_valid(pattern@),
        r matches Ok(out) ==> out@ == matches_replaced(pattern@, text@, with@),
        r matches Err(e) ==> e == ConfigError::InvalidPattern,
{
    match regex::Regex::new(pattern) {
        Ok(re) => Ok(re.replace_all(text, with).into_owned()),
        Err(_) => Err(ConfigError::InvalidPattern),
    }
}

} // verus!
