use movie_metadata_capture::config::{Condition, Rule, StringFlow};
use movie_metadata_capture::error::ConfigError;
use movie_metadata_capture::strings::{between, get_end_index, get_start_index, insert, substring};

fn rule(action: &str, args: &[&str]) -> Rule {
    Rule {
        action: action.to_string(),
        args: args.iter().map(|a| a.to_string()).collect(),
        when: None,
    }
}

fn guarded(action: &str, args: &[&str], name: &str, cond_args: &[&str]) -> Rule {
    Rule {
        action: action.to_string(),
        args: args.iter().map(|a| a.to_string()).collect(),
        when: Some(vec![Condition {
            name: name.to_string(),
            args: cond_args.iter().map(|a| a.to_string()).collect(),
        }]),
    }
}

fn run(rules: Vec<Rule>, input: &str) -> String {
    StringFlow::build(&rules).unwrap().process_string(input)
}

#[test]
fn empty_chain_returns_input() {
    assert_eq!(run(vec![], "ABC-123"), "ABC-123");
    assert_eq!(run(vec![], ""), "");
}

#[test]
fn append_adds_suffix() {
    assert_eq!(run(vec![rule("append", &["-x"])], "abc"), "abc-x");
}

#[test]
fn replace_replaces_every_occurrence() {
    assert_eq!(run(vec![rule("replace", &["ab", "X"])], "abcabab"), "XcXX");
    assert_eq!(run(vec![rule("replace", &["aa", "b"])], "aaa"), "ba");
    assert_eq!(run(vec![rule("replace", &["", "-"])], "ab"), "-a-b-");
    assert_eq!("ab".replace("", "-"), run(vec![rule("replace", &["", "-"])], "ab"));
    assert_eq!("aaa".replace("aa", "b"), run(vec![rule("replace", &["aa", "b"])], "aaa"));
}

#[test]
fn substring_by_numbers_and_marks() {
    assert_eq!(run(vec![rule("substring", &["1", "3"])], "abcdef"), "bc");
    assert_eq!(run(vec![rule("substring", &["c", "e"])], "abcdef"), "cd");
    assert_eq!(run(vec![rule("substring", &["", ""])], "abcdef"), "abcdef");
    assert_eq!(run(vec![rule("substring", &["zz", "zz"])], "abcdef"), "abcdef");
}

#[test]
fn substring_zero_zero_is_empty() {
    assert_eq!(run(vec![rule("substring", &["0", "0"])], "abcdef"), "");
    assert_eq!(run(vec![rule("substring", &["0", "0"])], ""), "");
}

#[test]
fn substring_out_of_range_is_brought_back() {
    assert_eq!(run(vec![rule("substring", &["2", "100"])], "abcdef"), "cdef");
    assert_eq!(run(vec![rule("substring", &["100", "200"])], "abcdef"), "");
    assert_eq!(run(vec![rule("substring", &["4", "2"])], "abcdef"), "");
}

#[test]
fn insert_puts_text_in_once() {
    let r = rule("insert", &["3", "-"]);
    let once = run(vec![r.clone()], "abc123");
    assert_eq!(once, "abc-123");
    assert_eq!(run(vec![r.clone()], &once), "abc-123");
    assert_eq!(run(vec![r.clone(), r], "abc123"), "abc-123");
}

#[test]
fn insert_looks_at_the_position_itself() {
    assert_eq!(run(vec![rule("insert", &["2", "ab"])], "abab"), "abab");
    assert_eq!(run(vec![rule("insert", &["1", "ab"])], "abab"), "aabbab");
}

#[test]
fn insert_beyond_the_end_appends() {
    assert_eq!(run(vec![rule("insert", &["9", "x"])], "ab"), "abx");
}

#[test]
fn between_takes_what_lies_between() {
    assert_eq!(run(vec![rule("between", &["[", "]"])], "a[bc]d"), "bc");
    assert_eq!(run(vec![rule("between", &["[", "]"])], "a[bcd"), "a[bcd");
    assert_eq!(run(vec![rule("between", &["(", ")"])], "a[bc]d"), "a[bc]d");
    assert_eq!(run(vec![rule("between", &["ab", "ab"])], "xabyabz"), "y");
}

#[test]
fn lowercase_and_trim() {
    assert_eq!(run(vec![rule("lowercase", &[])], "AbC-Δ"), "abc-δ");
    assert_eq!(run(vec![rule("trim", &[])], " \t a b \n"), "a b");
    assert_eq!(run(vec![rule("trim", &[])], "   "), "");
    assert_eq!(run(vec![rule("trim", &[])], "\u{3000}x\u{3000}"), "x");
}

#[test]
fn unknown_action_changes_nothing() {
    assert_eq!(run(vec![rule("reverse", &["a"])], "abc"), "abc");
}

#[test]
fn rules_work_on_what_the_rule_before_made() {
    let rules = vec![rule("append", &["-END"]), rule("replace", &["-END", "!"]), rule("lowercase", &[])];
    assert_eq!(run(rules, "AB"), "ab!");
}

#[test]
fn guard_is_tested_on_the_current_text() {
    let rules = vec![
        rule("replace", &["a", "b"]),
        guarded("append", &["!"], "contains", &["a"]),
        guarded("append", &["?"], "!contains", &["a"]),
    ];
    assert_eq!(run(rules, "aaa"), "bbb?");
}

#[test]
fn guards_empty_and_not_empty() {
    assert_eq!(run(vec![guarded("append", &["x"], "empty", &[])], ""), "x");
    assert_eq!(run(vec![guarded("append", &["x"], "empty", &[])], "a"), "a");
    assert_eq!(run(vec![guarded("append", &["x"], "!empty", &[])], ""), "");
    assert_eq!(run(vec![guarded("append", &["x"], "!empty", &[])], "a"), "ax");
    assert_eq!(run(vec![guarded("append", &["x"], "whatever", &[])], "a"), "a");
}

#[test]
fn malformed_rules_are_reported() {
    assert!(matches!(
        StringFlow::build(&vec![rule("replace", &["a"])]),
        Err(ConfigError::MissingRuleArgument)
    ));
    assert!(matches!(
        StringFlow::build(&vec![rule("append", &[])]),
        Err(ConfigError::MissingRuleArgument)
    ));
    assert!(matches!(
        StringFlow::build(&vec![guarded("trim", &[], "contains", &[])]),
        Err(ConfigError::MissingConditionArgument)
    ));
    assert!(StringFlow::build(&vec![rule("trim", &[]), rule("nothing", &[])]).is_ok());
    assert_eq!(rule("between", &["a"]).check(), Err(ConfigError::MissingRuleArgument));
    assert_eq!(rule("between", &["a", "b"]).check(), Ok(()));
}

#[test]
fn start_and_end_index() {
    assert_eq!(get_start_index("abcdef", "2"), 2);
    assert_eq!(get_start_index("abcdef", "+2"), 2);
    assert_eq!(get_start_index("abcdef", "cd"), 2);
    assert_eq!(get_start_index("abcdef", "zz"), 0);
    assert_eq!(get_start_index("abcdef", ""), 0);
    assert_eq!(get_start_index("abcdef", "-1"), 0);
    assert_eq!(get_start_index("ab-1", "-1"), 2);
    assert_eq!(get_end_index("abcdef", "4"), 4);
    assert_eq!(get_end_index("abcdef", "ef"), 4);
    assert_eq!(get_end_index("abcdef", "zz"), 6);
    assert_eq!(get_end_index("abcdef", ""), 6);
    assert_eq!(get_end_index("abcdef", "007"), 7);
    assert_eq!(get_start_index("a", "99999999999999999999999999"), 0);
}

#[test]
fn text_functions_on_rules() {
    assert_eq!(substring("SS016-1.mp4", &rule("substring", &["0", "."])), "SS016-1");
    assert_eq!(insert("SS016", &rule("insert", &["2", "-"])), "SS-016");
    assert_eq!(insert("SS-016", &rule("insert", &["2", "-"])), "SS-016");
    assert_eq!(between("cid=abc&x", &rule("between", &["cid=", "&"])), "abc");
}

#[test]
fn positions_count_bytes() {
    assert_eq!(get_start_index("é-", "-"), 2);
    assert_eq!(get_end_index("é", "zz"), 2);
    assert_eq!(get_end_index("é", ""), 2);
    assert_eq!(get_start_index("日本語の", "語"), 6);
    assert_eq!(get_start_index("日本語の", "語"), "日本語の".find("語").unwrap());
    assert_eq!(substring("éa", &rule("substring", &["2", "3"])), "a");
    assert_eq!(substring("éa", &rule("substring", &["2", "3"])), &"éa"[2..3]);
    assert_eq!(run(vec![rule("substring", &["3", "9"])], "日本語の"), "本語");
    assert_eq!(insert("éab", &rule("insert", &["2", "x"])), "éxab");
    let once = insert("é", &rule("insert", &["2", "x"]));
    assert_eq!(once, "éx");
    assert_eq!(insert(&once, &rule("insert", &["2", "x"])), "éx");
    let r = rule("insert", &["2", "x"]);
    assert_eq!(run(vec![r.clone(), r], "é"), "éx");
}

#[test]
fn a_position_inside_a_character_goes_back_to_its_start() {
    assert_eq!(substring("éa", &rule("substring", &["1", "3"])), "éa");
    assert_eq!(substring("éa", &rule("substring", &["0", "1"])), "");
    assert_eq!(insert("日本", &rule("insert", &["4", "-"])), "日-本");
    assert_eq!(insert("日本", &rule("insert", &["99", "-"])), "日本-");
}
