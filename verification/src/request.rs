//! Addresses of the pages to fetch.
//!
//! Fetching itself is not done here: the library says which address to fetch
//! next and is handed the page that came back, or nothing where the fetch
//! failed.

use crate::error::ConfigError;
use vstd::prelude::*;
use vstd::string::StringSliceAdditionalSpecFns;
use vstd::utf8::encode_utf8;

verus! {

/// How many bytes an address and the parts of a pair may each take where a
/// pair is appended. The `url` crate counts the bytes of a URL in 32 bits;
/// below this limit the URL with the pair, each byte written as three at
/// most, stays within that count.
pub const PAIR_LIMIT: usize = 0x1000_0000;

/// The text `s` is short enough to go into a URL with a pair.
pub open spec fn fits_address(s: Seq<char>) -> bool {
    encode_utf8(s).len() <= PAIR_LIMIT
}

/// What `Url::parse` makes of `raw`, written out again by `Url::as_str`;
/// nothing where `raw` is no URL.
pub uninterp spec fn parsed_url(raw: Seq<char>) -> Option<Seq<char>>;

/// What `Url::parse` makes of `raw` once the pair of `name` and `value` was
/// appended to its query by `append_pair`; nothing where `raw` is no URL.
pub uninterp spec fn url_with_pair(raw: Seq<char>, name: Seq<char>, value: Seq<char>) -> Option<
    Seq<char>,
>;

/// Parses `raw` with `Url::parse` and writes the URL out with `Url::as_str`.
/// The crate returns an error for what is no URL; the text that comes out
/// depends on `raw` alone.
#[verifier::external_body]
fn parse_url(raw: &str) -> (r: Option<String>)
    ensures
        crate::pattern::optional_text(r) == parsed_url(raw@),
{
    match url::Url::parse(raw) {
        Ok(parsed) => Some(parsed.as_str().to_string()),
        Err(_) => None,
    }
}

/// Parses `raw` with `Url::parse`, appends one pair to its query with
/// `query_pairs_mut` and `append_pair`, and writes the URL out. The texts are
/// kept below the limit, so that the crate's count of bytes cannot overflow.
#[verifier::external_body]
fn parse_url_with_pair(raw: &str, name: &str, value: &str) -> (r: Option<String>)
    requires
        fits_address(raw@),
        fits_address(name@),
        fits_address(value@),
    ensures
        crate::pattern::optional_text(r) == url_with_pair(raw@, name@, value@),
{
    match url::Url::parse(raw) {
        Ok(mut parsed) => {
            parsed.query_pairs_mut().append_pair(name, value);
            Some(parsed.as_str().to_string())
        },
        Err(_) => None,
    }
}

/// The address to fetch for the text `raw`: the URL that it writes, or an
/// error where it is no URL.
pub open spec fn address_of(raw: Seq<char>) -> Result<Seq<char>, ConfigError> {
    match parsed_url(raw) {
        Some(address) => Ok(address),
        None => Err(ConfigError::InvalidUrl),
    }
}

/// The address to fetch for the text `raw` with one more pair in its query,
/// or an error where a part is too long or `raw` is no URL.
pub open spec fn address_with_pair(raw: Seq<char>, name: Seq<char>, value: Seq<char>) -> Result<
    Seq<char>,
    ConfigError,
> {
    if !fits_address(raw) || !fits_address(name) || !fits_address(value) {
        Err(ConfigError::InvalidUrl)
    } else {
        match url_with_pair(raw, name, value) {
            Some(address) => Ok(address),
            None => Err(ConfigError::InvalidUrl),
        }
    }
}

/// A result that holds a string, as plain values.
pub open spec fn text_result(r: Result<String, ConfigError>) -> Result<Seq<char>, ConfigError> {
    match r {
        Ok(s) => Ok(s@),
        Err(e) => Err(e),
    }
}

/// The address to fetch for the text `raw`.
pub fn page_address(raw: &str) -> (r: Result<String, ConfigError>)
    ensures
        text_result(r) == address_of(raw@),
{
    match parse_url(raw) {
        Some(address) => Ok(address),
        None => Err(ConfigError::InvalidUrl),
    }
}

/// The address to fetch for the text `raw` with the pair of `name` and
/// `value` appended to its query.
pub fn page_address_with_pair(raw: &str, name: &str, value: &str) -> (r: Result<String, ConfigError>)
    ensures
        text_result(r) == address_with_pair(raw@, name@, value@),
{
    if raw.as_bytes().len() > PAIR_LIMIT || name.as_bytes().len() > PAIR_LIMIT
        || value.as_bytes().len() > PAIR_LIMIT {
        return Err(ConfigError::InvalidUrl);
    }
    match parse_url_with_pair(raw, name, value) {
        Some(address) => Ok(address),
        None => Err(ConfigError::InvalidUrl),
    }
}

} // verus!
