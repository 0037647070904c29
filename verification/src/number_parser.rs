//! Finds the identifier that a file name carries.

use crate::config::{NumberExtractor, NumberExtractorView};
use crate::error::ConfigError;
use crate::pattern::{find_match, first_match, matches_replaced, pattern_is_valid, replace_matches};
use crate::text::{chars_of, find, find_in, replace_all, replace_in, slice_of, string_of};
use vstd::prelude::*;

verus! {

/// The pattern of what is noise in a file name: the address of the site it
/// came from, and marks of resolution and encoding at its start or after a
/// separator.
pub open spec fn noise_pattern() -> Seq<char> {
    r"(?-i)^\w+\.(cc|com|net|me|club|jp|tv|xyz|biz|wiki|info|tw|us|de)@|^22-sht\.me|^((fhd|hd|sd|1080p|720p|4K)(-|_)|(-|_)(fhd|hd|sd|1080p|720p|4K|x264|x265|uncensored|leak))"@
}

/// The pattern of a file name that ends in an extension.
pub open spec fn stem_pattern() -> Seq<char> {
    r#"([^<>/\\|:"*?]+)\.\w+$"#@
}

/// The pattern of an identifier: two words joined by a dash or an underscore.
pub open spec fn number_pattern() -> Seq<char> {
    r"\w+(-|_)\w+"@
}

/// The extractor that stands for the built-in pattern of an identifier.
pub open spec fn default_extractor_view() -> NumberExtractorView {
    NumberExtractorView { name: "default"@, regex: number_pattern(), sources: None }
}

/// The extractor that stands for the built-in pattern of an identifier.
pub fn default_number_extractor() -> (r: NumberExtractor)
    ensures
        r@ == default_extractor_view(),
{
    NumberExtractor {
        name: "default".to_owned(),
        regex: r"\w+(-|_)\w+".to_owned(),
        sources: None,
    }
}

/// The extractors of a list as plain values.
pub open spec fn extractor_views(v: Seq<NumberExtractor>) -> Seq<NumberExtractorView> {
    Seq::new(v.len(), |i: int| v[i]@)
}

/// What the extractors from the one at `from` on find in `name`: the find of
/// the first of them that has one, with that extractor; the error of the
/// first whose pattern is no regular expression, if it comes before any find.
pub open spec fn configured_number(
    extractors: Seq<NumberExtractorView>,
    from: int,
    name: Seq<char>,
) -> Result<Option<(Seq<char>, NumberExtractorView)>, ConfigError>
    decreases extractors.len() - from,
{
    if from < 0 || from >= extractors.len() {
        Ok(None)
    } else {
        match extractors[from].number_in(name) {
            Err(e) => Err(e),
            Ok(Some(number)) => Ok(Some((number, extractors[from]))),
            Ok(None) => configured_number(extractors, from + 1, name),
        }
    }
}

/// What the built-in patterns find in `name`: the file name must end in an
/// extension; its underscores become dashes; the identifier is then the first
/// run of two words joined by a dash, unless that run is empty.
pub open spec fn pattern_number(name: Seq<char>) -> Result<Option<Seq<char>>, ConfigError> {
    if !pattern_is_valid(stem_pattern()) {
        Err(ConfigError::InvalidPattern)
    } else {
        match first_match(stem_pattern(), name) {
            None => Ok(None),
            Some(whole) => if !pattern_is_valid(number_pattern()) {
                Err(ConfigError::InvalidPattern)
            } else {
                match first_match(number_pattern(), replace_all(whole, "_"@, "-"@)) {
                    Some(number) => if number.len() > 0 {
                        Ok(Some(number))
                    } else {
                        Ok(None)
                    },
                    None => Ok(None),
                }
            },
        }
    }
}

/// The stem of a file name: what stands before its first dot, and the whole
/// name where it holds no dot.
pub open spec fn stem_of(name: Seq<char>) -> Seq<char> {
    match find(name, "."@) {
        Some(i) => name.take(i),
        None => name,
    }
}

/// What is found in `name` where no configured extractor found anything:
/// what the built-in patterns find; and where they find nothing, the stem of
/// the name, if it is not empty.
pub open spec fn fallback_number(name: Seq<char>) -> Result<Option<Seq<char>>, ConfigError> {
    match pattern_number(name) {
        Err(e) => Err(e),
        Ok(Some(number)) => Ok(Some(number)),
        Ok(None) => if stem_of(name).len() > 0 {
            Ok(Some(stem_of(name)))
        } else {
            Ok(None)
        },
    }
}

/// The name of the file at `path`: what stands after the last slash or
/// backslash, and the whole path where it holds neither.
pub open spec fn base_name(path: Seq<char>) -> Seq<char>
    decreases path.len(),
{
    if path.len() == 0 {
        Seq::empty()
    } else if path.last() == '/' || path.last() == '\\' {
        Seq::empty()
    } else {
        base_name(path.drop_last()).push(path.last())
    }
}

/// The name of the file at `path`.
pub fn file_name_of(path: &str) -> (r: String)
    ensures
        r@ == base_name(path@),
{
    let chars: Vec<char> = chars_of(path);
    let mut name: Vec<char> = Vec::new();
    let mut i: usize = 0;
    assert(chars@.take(0) =~= Seq::<char>::empty());
    while i < chars.len()
        invariant
            i <= chars.len(),
            name@ == base_name(chars@.take(i as int)),
        decreases chars.len() - i,
    {
        let c: char = chars[i];
        assert(chars@.take(i + 1).drop_last() =~= chars@.take(i as int));
        if c == '/' || c == '\\' {
            name = Vec::new();
        } else {
            name.push(c);
        }
        i += 1;
    }
    assert(chars@.take(chars@.len() as int) =~= chars@);
    string_of(&name)
}

/// The identifier that `filename` carries, with the extractor that found it:
/// noise is taken out of the name, then the configured extractors are asked
/// in their order, then the built-in patterns, then the stem of the name.
pub open spec fn extracted_number(
    extractors: Seq<NumberExtractorView>,
    filename: Seq<char>,
) -> Result<Option<(Seq<char>, NumberExtractorView)>, ConfigError> {
    if !pattern_is_valid(noise_pattern()) {
        Err(ConfigError::InvalidPattern)
    } else {
        let name = matches_replaced(noise_pattern(), filename, Seq::empty());
        match configured_number(extractors, 0, name) {
            Err(e) => Err(e),
            Ok(Some(found)) => Ok(Some(found)),
            Ok(None) => match fallback_number(name) {
                Err(e) => Err(e),
                Ok(Some(number)) => Ok(Some((number, default_extractor_view()))),
                Ok(None) => Ok(None),
            },
        }
    }
}

/// What the configured extractors find is never empty.
pub proof fn lemma_configured_number_is_not_empty(
    extractors: Seq<NumberExtractorView>,
    from: int,
    name: Seq<char>,
)
    ensures
        configured_number(extractors, from, name) matches Ok(Some(found)) ==> found.0.len() > 0,
    decreases extractors.len() - from,
{
    if 0 <= from < extractors.len() {
        lemma_configured_number_is_not_empty(extractors, from + 1, name);
    }
}

/// Extraction is total, and an identifier is never empty: whatever the file
/// name, it carries an identifier that is not empty, or none, or a pattern of
/// the configuration is at fault.
pub proof fn lemma_extracted_number_is_not_empty(
    extractors: Seq<NumberExtractorView>,
    filename: Seq<char>,
)
    ensures
        extracted_number(extractors, filename) matches Ok(Some(found)) ==> found.0.len() > 0,
{
    lemma_configured_number_is_not_empty(
        extractors,
        0,
        matches_replaced(noise_pattern(), filename, Seq::empty()),
    );
}

/// A find as plain values.
pub open spec fn found_view(found: Option<(String, NumberExtractor)>) -> Option<
    (Seq<char>, NumberExtractorView),
> {
    match found {
        Some((number, extractor)) => Some((number@, extractor@)),
        None => None,
    }
}

/// What is found in the name `name` where no configured extractor found
/// anything.
pub fn fallback_number_of(name: &str) -> (r: Result<Option<String>, ConfigError>)
    ensures
        match fallback_number(name@) {
            Ok(found) => r is Ok && crate::pattern::optional_text(r->Ok_0) == found,
            Err(e) => r == Err::<Option<String>, ConfigError>(e),
        },
        r matches Ok(Some(number)) ==> number@.len() > 0,
{
    match pattern_number_of(name)? {
        Some(number) => Ok(Some(number)),
        None => {
            let chars: Vec<char> = chars_of(name);
            let stem: Vec<char> = match find_in(&chars, &chars_of(".")) {
                Some(i) => {
                    proof {
                        crate::text::lemma_find_is_first(chars@, "."@);
                    }
                    let head: Vec<char> = slice_of(&chars, 0, i);
                    assert(head@ =~= chars@.take(i as int));
                    head
                },
                None => chars,
            };
            if stem.len() > 0 {
                Ok(Some(string_of(&stem)))
            } else {
                Ok(None)
            }
        },
    }
}

/// What the built-in patterns find in the name `name`.
pub fn pattern_number_of(name: &str) -> (r: Result<Option<String>, ConfigError>)
    ensures
        match pattern_number(name@) {
            Ok(found) => r is Ok && crate::pattern::optional_text(r->Ok_0) == found,
            Err(e) => r == Err::<Option<String>, ConfigError>(e),
        },
        r matches Ok(Some(number)) ==> number@.len() > 0,
{
    match find_match(r#"([^<>/\\|:"*?]+)\.\w+$"#, name) {
        Ok(Some(whole)) => {
            let chars: Vec<char> = chars_of(whole.as_str());
            let dashed: Vec<char> = replace_in(&chars, &chars_of("_"), &chars_of("-"));
            let dashed_name: String = string_of(&dashed);
            match find_match(r"\w+(-|_)\w+", dashed_name.as_str()) {
                Ok(Some(number)) => {
                    if number.as_str().is_empty() {
                        Ok(None)
                    } else {
                        Ok(Some(number))
                    }
                },
                Ok(None) => Ok(None),
                Err(e) => Err(e),
            }
        },
        Ok(None) => Ok(None),
        Err(e) => Err(e),
    }
}

/// The identifier that the file name `filename` carries, with the extractor
/// that found it. An identifier is never empty.
pub fn get_number(extractors: &Vec<NumberExtractor>, filename: &str) -> (r: Result<
    Option<(String, NumberExtractor)>,
    ConfigError,
>)
    ensures
        match extracted_number(extractor_views(extractors@), filename@) {
            Ok(found) => r is Ok && found_view(r->Ok_0) == found,
            Err(e) => r == Err::<Option<(String, NumberExtractor)>, ConfigError>(e),
        },
        r matches Ok(Some(found)) ==> found.0@.len() > 0,
{
    let name: String = match replace_matches(
        r"(?-i)^\w+\.(cc|com|net|me|club|jp|tv|xyz|biz|wiki|info|tw|us|de)@|^22-sht\.me|^((fhd|hd|sd|1080p|720p|4K)(-|_)|(-|_)(fhd|hd|sd|1080p|720p|4K|x264|x265|uncensored|leak))",
        filename,
        "",
    ) {
        Ok(clean) => clean,
        Err(e) => {
            return Err(e);
        },
    };
    proof {
        reveal_strlit("");
        assert(""@ =~= Seq::<char>::empty());
    }
    let ghost views = extractor_views(extractors@);
    let mut i: usize = 0;
    while i < extractors.len()
        invariant
            i <= extractors.len(),
            views == extractor_views(extractors@),
            pattern_is_valid(noise_pattern()),
            name@ == matches_replaced(noise_pattern(), filename@, Seq::empty()),
            configured_number(views, 0, name@) == configured_number(views, i as int, name@),
        decreases extractors.len() - i,
    {
        assert(views[i as int] == extractors@[i as int]@);
        match extractors[i].get_number(name.as_str()) {
            Err(e) => {
                return Err(e);
            },
            Ok(Some(number)) => {
                return Ok(Some((number, extractors[i].copy())));
            },
            Ok(None) => {},
        }
        i += 1;
    }
    match fallback_number_of(name.as_str()) {
        Err(e) => Err(e),
        Ok(Some(number)) => Ok(Some((number, default_number_extractor()))),
        Ok(None) => Ok(None),
    }
}

} // verus!
