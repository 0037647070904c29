use movie_metadata_capture::config::NumberExtractor;
use movie_metadata_capture::error::ConfigError;
use movie_metadata_capture::number_parser::{default_number_extractor, file_name_of, get_number};

fn extractor(name: &str, regex: &str, sources: Option<Vec<&str>>) -> NumberExtractor {
    NumberExtractor {
        name: name.to_string(),
        regex: regex.to_string(),
        sources: sources.map(|v| v.into_iter().map(|s| s.to_string()).collect()),
    }
}

#[test]
fn test_get_number() {
    let (number, _) = get_number(&vec![], "SS016-1.mp4").unwrap().unwrap();
    assert_eq!(number, "SS016-1");
}

#[test]
fn fallback_names_the_default_extractor() {
    let (number, found_by) = get_number(&vec![], "abc_123.mkv").unwrap().unwrap();
    assert_eq!(number, "abc-123");
    assert_eq!(found_by.name, "default");
    assert_eq!(found_by.regex, default_number_extractor().regex);
    assert!(found_by.sources.is_none());
}

#[test]
fn noise_is_taken_out_first() {
    let (number, _) = get_number(&vec![], "hd-ABC-123.mp4").unwrap().unwrap();
    assert_eq!(number, "ABC-123");
    let (number, _) = get_number(&vec![], "site.com@ABC-123.mp4").unwrap().unwrap();
    assert_eq!(number, "ABC-123");
    let (number, _) = get_number(&vec![], "ABC-123-uncensored.mp4").unwrap().unwrap();
    assert_eq!(number, "ABC-123");
}

#[test]
fn configured_extractors_come_first_and_in_order() {
    let extractors = vec![
        extractor("fc2", r"FC2-\d+", Some(vec!["fc2"])),
        extractor("digits", r"\d{3}", None),
    ];
    let (number, found_by) = get_number(&extractors, "FC2-123456.mp4").unwrap().unwrap();
    assert_eq!(number, "FC2-123456");
    assert_eq!(found_by.name, "fc2");
    assert_eq!(found_by.sources, Some(vec!["fc2".to_string()]));
    let (number, found_by) = get_number(&extractors, "ABC-987.mp4").unwrap().unwrap();
    assert_eq!(number, "987");
    assert_eq!(found_by.name, "digits");
}

#[test]
fn nothing_found_is_absent() {
    assert!(get_number(&vec![], "").unwrap().is_none());
    assert!(get_number(&vec![], ".mp4").unwrap().is_none());
    assert!(get_number(&vec![], "..").unwrap().is_none());
}

#[test]
fn the_stem_is_the_last_resort() {
    let stem = |name: &str| get_number(&vec![], name).unwrap().map(|found| found.0);
    assert_eq!(stem("movie.mp4"), Some("movie".to_string()));
    assert_eq!(stem("abc123.mp4"), Some("abc123".to_string()));
    assert_eq!(stem("abc"), Some("abc".to_string()));
    assert_eq!(stem("a.b.c"), Some("a".to_string()));
    assert_eq!(stem("ABC-123"), Some("ABC-123".to_string()));
    assert_eq!(stem("映画.mp4"), Some("映画".to_string()));
    let (_, found_by) = get_number(&vec![], "movie.mp4").unwrap().unwrap();
    assert_eq!(found_by.name, "default");
}

#[test]
fn file_name_is_what_follows_the_last_separator() {
    assert_eq!(file_name_of("/films/new/ABC-123.mp4"), "ABC-123.mp4");
    assert_eq!(file_name_of("C:\\films\\ABC-123.mp4"), "ABC-123.mp4");
    assert_eq!(file_name_of("ABC-123.mp4"), "ABC-123.mp4");
    assert_eq!(file_name_of("/films/"), "");
    assert_eq!(file_name_of(""), "");
    assert_eq!(file_name_of("/"), "");
    assert!(get_number(&vec![], &file_name_of("")).unwrap().is_none());
    assert!(get_number(&vec![], &file_name_of("/")).unwrap().is_none());
}

#[test]
fn an_empty_match_is_no_identifier() {
    let extractors = vec![extractor("empty", r"x*", None)];
    let found = get_number(&extractors, "ABC-123.mp4").unwrap();
    let (number, found_by) = found.unwrap();
    assert_eq!(number, "ABC-123");
    assert_eq!(found_by.name, "default");
    assert_eq!(get_number(&extractors, "abc").unwrap().unwrap().0, "abc");
    assert!(get_number(&extractors, "").unwrap().is_none());
    assert_eq!(extractors[0].get_number("abc").unwrap(), None);
}

#[test]
fn a_broken_pattern_is_reported() {
    let extractors = vec![extractor("broken", r"(", None)];
    assert!(matches!(get_number(&extractors, "ABC-123.mp4"), Err(ConfigError::InvalidPattern)));
    assert!(matches!(extractors[0].get_number("x"), Err(ConfigError::InvalidPattern)));
}

#[test]
fn extractor_returns_the_leftmost_match() {
    let e = extractor("n", r"\d+", None);
    assert_eq!(e.get_number("ab12cd345").unwrap(), Some("12".to_string()));
    assert_eq!(e.get_number("abcd").unwrap(), None);
}
