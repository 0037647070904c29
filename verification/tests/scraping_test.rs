use std::collections::HashMap;

use movie_metadata_capture::config::{
    AgeCheck, NumberExtractor, NumberHandle, Parser, Rule, SiteSearch, SourcesHolder, Translate,
};
use movie_metadata_capture::error::ConfigError;
use movie_metadata_capture::lookup::{LookupStage, LookupStep};
use movie_metadata_capture::number_parser::default_number_extractor;
use movie_metadata_capture::parser::Movie;
use movie_metadata_capture::scraping::{replace_sources_item, Scraping, SearchState, SearchStep};
use movie_metadata_capture::translator::{AzureTranslator, TranslationRequest};

fn rule(action: &str, args: &[&str]) -> Rule {
    Rule {
        action: action.to_string(),
        args: args.iter().map(|a| a.to_string()).collect(),
        when: None,
    }
}

fn page(number: &str, title: &str) -> String {
    format!(
        "<html><body><h1 id=\"t\">{}</h1><span id=\"n\">{}</span>\
<span id=\"r\">Released 2021-03-04</span><ul><li class=\"a\">Ann</li><li class=\"a\">Bea</li></ul>\
<img class=\"p\" src=\"/ann.jpg\"/><div class=\"g\">drama</div><div class=\"g\">uncensored</div>\
<p id=\"o\">An outline</p></body></html>",
        title, number
    )
}

fn source(name: &str, template: &str) -> Parser {
    Parser {
        name: name.to_string(),
        source_detail_url: vec![template.to_string()],
        expr_number: "string(//span[@id='n'])".to_string(),
        expr_title: "string(//h1[@id='t'])".to_string(),
        expr_release: "string(//span[@id='r'])".to_string(),
        expr_actor_name: "//li[@class='a']/text()".to_string(),
        expr_actor_photo: "//img[@class='p']/@src".to_string(),
        expr_tags: "//div[@class='g']/text()".to_string(),
        expr_outline: "string(//p[@id='o'])".to_string(),
        source_max_userrating: Some("5".to_string()),
        ..Default::default()
    }
}

fn holder(sources: Vec<Parser>) -> SourcesHolder {
    SourcesHolder { sources: sources.into_iter().map(|p| (p.name.clone(), p)).collect() }
}

fn no_translation() -> Translate {
    Translate::default()
}

fn azure(values: &str) -> Translate {
    Translate {
        switch: true,
        engine: "azure".to_string(),
        service_url: "https://t.test/translate".to_string(),
        access_key: "KEY".to_string(),
        region: None,
        values: values.to_string(),
    }
}

struct World {
    pages: HashMap<String, String>,
    replies: HashMap<String, String>,
    fetched: Vec<String>,
    asked: Vec<TranslationRequest>,
}

impl World {
    fn new(pages: &[(&str, String)]) -> World {
        World {
            pages: pages.iter().map(|(a, p)| (a.to_string(), p.clone())).collect(),
            replies: HashMap::new(),
            fetched: Vec::new(),
            asked: Vec::new(),
        }
    }

    fn run(&mut self, scraping: &Scraping, first: Result<SearchStep, ConfigError>) -> Result<Option<Movie>, ConfigError> {
        let mut step = first?;
        loop {
            step = match step {
                SearchStep::Done(found) => return Ok(found),
                SearchStep::Fetch { address, state } => {
                    self.fetched.push(address.clone());
                    let got = self.pages.get(&address).cloned();
                    scraping.resume(state, got.as_deref())?
                }
                SearchStep::Translate { request, state } => {
                    let got = self.replies.get(&request.body).cloned();
                    self.asked.push(request);
                    scraping.resume(state, got.as_deref())?
                }
            };
        }
    }
}

fn search(
    world: &mut World,
    scraping: &mut Scraping,
    number: &str,
    extractor: &NumberExtractor,
    sources: Option<&str>,
    pinned: Option<&str>,
) -> Result<Option<Movie>, ConfigError> {
    let first = scraping.search(
        number,
        extractor,
        sources.map(|s| s.to_string()),
        pinned.map(|s| s.to_string()),
    );
    world.run(scraping, first)
}

#[test]
fn page_is_read_into_a_record() {
    let parser = source("a", "https://a.test/d/");
    let movie = parser
        .parse_to_movie(&page("ABC-123", "A Title"), "https://a.test/d/ABC-123".to_string())
        .unwrap();
    assert_eq!(movie.number, "ABC-123");
    assert_eq!(movie.title, "A Title");
    assert_eq!(movie.release, "Released 2021-03-04");
    assert_eq!(movie.year, "2021");
    assert_eq!(movie.outline, "An outline");
    assert_eq!(
        movie.actor,
        vec![("Ann".to_string(), "/ann.jpg".to_string()), ("Bea".to_string(), String::new())]
    );
    assert_eq!(movie.tag, vec!["drama", "uncensored"]);
    assert!(movie.uncensored);
    assert_eq!(movie.website, "https://a.test/d/ABC-123");
    assert_eq!(movie.max_user_rating, "5");
    assert_eq!(movie.studio, "");
    assert_eq!(movie.cover, "");
    assert!(movie.extra_fanart.is_empty());
    assert!(movie.is_valid());
    assert!(parser.is_movie_valid(&Some(movie.clone())));
    assert!(!parser.is_movie_valid(&None));
    let tags = movie.get_tags();
    assert_eq!(tags.len(), 2);
    assert_eq!(tags[0].content, "drama");
    assert_eq!(tags[1].content, "uncensored");
}

#[test]
fn fields_are_reshaped_by_their_chains() {
    let mut parser = source("a", "https://a.test/d/");
    parser.replace_title = Some(vec![rule("append", &["!"]), rule("lowercase", &[])]);
    parser.replace_tags = Some(vec![rule("replace", &["uncensored", "plain"])]);
    parser.replace_release = Some(vec![rule("substring", &["Released ", ""]), rule("trim", &[])]);
    parser.expr_cover = "string(//a[@id='$cover_number']/@href)".to_string();
    let html = page("ABC-123", "A Title").replace("</body>", "<a id=\"ABC-123\" href=\"/c.jpg\">c</a></body>");
    let movie = parser.parse_to_movie(&html, "u".to_string()).unwrap();
    assert_eq!(movie.title, "a title!");
    assert_eq!(movie.tag, vec!["drama", "plain"]);
    assert!(!movie.uncensored);
    assert_eq!(movie.release, "Released 2021-03-04");
    assert_eq!(movie.cover, "/c.jpg");
}

#[test]
fn uncensored_follows_the_expression_first() {
    let mut parser = source("a", "https://a.test/d/");
    parser.expr_tags = String::new();
    parser.expr_uncensored = "count(//h1) = 1".to_string();
    assert!(parser.parse_to_movie(&page("N", "T"), "u".to_string()).unwrap().uncensored);
    parser.expr_uncensored = "count(//h1) = 2".to_string();
    assert!(!parser.parse_to_movie(&page("N", "T"), "u".to_string()).unwrap().uncensored);
    parser.expr_uncensored = "string(//div[@class='g'][2])".to_string();
    assert!(parser.parse_to_movie(&page("N", "T"), "u".to_string()).unwrap().uncensored);
    parser.expr_uncensored = "string(//div[@class='g'][1])".to_string();
    assert!(!parser.parse_to_movie(&page("N", "T"), "u".to_string()).unwrap().uncensored);
}

#[test]
fn a_bad_expression_is_an_error() {
    let mut parser = source("a", "https://a.test/d/");
    parser.expr_label = "//[".to_string();
    assert!(matches!(
        parser.parse_to_movie(&page("N", "T"), "u".to_string()),
        Err(ConfigError::InvalidExpression)
    ));
}

#[test]
fn malformed_sources_are_reported() {
    let mut parser = source("a", "https://a.test/d/");
    assert_eq!(parser.check(), Ok(()));
    parser.replace_series = Some(vec![rule("replace", &["x"])]);
    assert_eq!(parser.check(), Err(ConfigError::MissingRuleArgument));
    assert!(holder(vec![parser]).check().is_err());
    let mut parser = source("a", "https://a.test/d/");
    parser.number_pre_handle = vec![NumberHandle { name: "*".to_string(), rule: vec![rule("insert", &["0"])] }];
    assert_eq!(parser.check(), Err(ConfigError::MissingRuleArgument));
    let mut parser = source("a", "https://a.test/d/");
    parser.site_search = Some(SiteSearch {
        site_id_post_handle: Some(vec![rule("between", &[])]),
        ..Default::default()
    });
    assert_eq!(parser.check(), Err(ConfigError::MissingRuleArgument));
}

#[test]
fn first_valid_source_ends_the_search() {
    let mut scraping = Scraping::new(
        false,
        no_translation(),
        holder(vec![source("a", "https://a.test/d/"), source("b", "https://b.test/d/")]),
    );
    let mut world = World::new(&[
        ("https://a.test/d/ABC-123", page("ABC-123", "From A")),
        ("https://b.test/d/ABC-123", page("ABC-123", "From B")),
    ]);
    let found = search(&mut world, &mut scraping, "ABC-123", &default_number_extractor(), None, None)
        .unwrap()
        .unwrap();
    assert_eq!(found.title, "From A");
    assert_eq!(world.fetched, vec!["https://a.test/d/ABC-123"]);
    let found = search(&mut world, &mut scraping, "ABC-123", &default_number_extractor(), Some("b,a"), None)
        .unwrap()
        .unwrap();
    assert_eq!(found.title, "From B");
}

#[test]
fn an_empty_title_sends_the_search_on() {
    let mut scraping = Scraping::new(
        false,
        no_translation(),
        holder(vec![source("x", "https://x.test/{id}"), source("b", "https://b.test/d/")]),
    );
    let mut world = World::new(&[
        ("https://x.test/ABC-123", page("ABC-123", "")),
        ("https://b.test/d/ABC-123", page("ABC-123", "From B")),
    ]);
    let found = search(&mut world, &mut scraping, "ABC-123", &default_number_extractor(), None, None)
        .unwrap()
        .unwrap();
    assert_eq!(found.title, "From B");
    assert_eq!(world.fetched, vec!["https://x.test/ABC-123", "https://b.test/d/ABC-123"]);
    let record = source("x", "https://x.test/{id}").parse_to_movie(&page("ABC-123", ""), "u".to_string()).unwrap();
    assert!(!record.is_valid());
}

#[test]
fn all_sources_failing_is_absent() {
    let mut scraping = Scraping::new(
        false,
        azure("title,outline"),
        holder(vec![source("a", "https://a.test/d/"), source("b", "https://b.test/d/")]),
    );
    let mut world = World::new(&[("https://b.test/d/ABC-123", page("", "No number"))]);
    let found = search(&mut world, &mut scraping, "ABC-123", &default_number_extractor(), None, None);
    assert_eq!(found.unwrap().map(|m| m.title), None);
    assert_eq!(world.fetched.len(), 2);
    assert!(world.asked.is_empty());
    let mut empty = Scraping::new(false, no_translation(), holder(vec![]));
    let found = search(&mut world, &mut empty, "ABC-123", &default_number_extractor(), None, None);
    assert!(found.unwrap().is_none());
}

#[test]
fn pinned_source_is_the_only_one_tried() {
    let mut scraping = Scraping::new(
        true,
        no_translation(),
        holder(vec![source("a", "https://a.test/d/"), source("b", "https://b.test/d/")]),
    );
    assert!(scraping.enable_debug());
    let mut world = World::new(&[
        ("https://a.test/d/N-1", page("N-1", "From A")),
        ("https://b.test/d/N-1", page("N-1", "From B")),
    ]);
    let found = search(&mut world, &mut scraping, "N-1", &default_number_extractor(), Some("a"), Some("b"));
    assert_eq!(found.unwrap().unwrap().title, "From B");
    assert_eq!(world.fetched, vec!["https://b.test/d/N-1"]);
    let found = search(&mut world, &mut scraping, "N-1", &default_number_extractor(), None, Some("zzz"));
    assert!(found.unwrap().is_none());
}

#[test]
fn preferred_sources_come_first() {
    let scraping = Scraping::new(
        false,
        no_translation(),
        holder(vec![
            source("a", "https://a.test/"),
            source("b", "https://b.test/"),
            source("c", "https://c.test/"),
            source("d", "https://d.test/"),
        ]),
    );
    let prefers = |names: &[&str]| NumberExtractor {
        name: "x".to_string(),
        regex: "x".to_string(),
        sources: Some(names.iter().map(|s| s.to_string()).collect()),
    };
    assert_eq!(scraping.get_reorder_sources(vec![], &default_number_extractor()), vec!["a", "b", "c", "d"]);
    assert_eq!(scraping.get_reorder_sources(vec![], &prefers(&["c"])), vec!["c", "a", "b", "d"]);
    assert_eq!(scraping.get_reorder_sources(vec![], &prefers(&["d", "b"])), vec!["d", "b", "a", "c"]);
    assert_eq!(scraping.get_reorder_sources(vec![], &prefers(&["zz", "b"])), vec!["b", "a", "c", "d"]);
    assert_eq!(
        scraping.get_reorder_sources(vec!["d".to_string(), "zz".to_string(), "a".to_string()], &prefers(&["a"])),
        vec!["a", "d"]
    );
}

#[test]
fn replace_sources_item_moves_the_first_occurrence() {
    let mut list: Vec<String> = ["a", "b", "c", "b"].iter().map(|s| s.to_string()).collect();
    replace_sources_item(&mut list, 0, "b");
    assert_eq!(list, vec!["b", "a", "c", "b"]);
    replace_sources_item(&mut list, 0, "b");
    assert_eq!(list, vec!["b", "a", "c", "b"]);
    replace_sources_item(&mut list, 0, "zz");
    assert_eq!(list, vec!["b", "a", "c", "b"]);
    replace_sources_item(&mut list, 2, "c");
    assert_eq!(list, vec!["b", "a", "c", "b"]);
    replace_sources_item(&mut list, 1, "c");
    assert_eq!(list, vec!["b", "c", "a", "b"]);
    let mut none: Vec<String> = Vec::new();
    replace_sources_item(&mut none, 0, "a");
    assert!(none.is_empty());
}

#[test]
fn addresses_are_tried_in_order_until_one_is_valid() {
    let mut parser = source("a", "https://a.test/1/");
    parser.source_detail_url.push("https://a.test/2/".to_string());
    parser.source_detail_url.push("https://a.test/3/".to_string());
    let mut scraping = Scraping::new(false, no_translation(), holder(vec![parser]));
    let mut world = World::new(&[
        ("https://a.test/1/N-1", page("N-1", "")),
        ("https://a.test/2/N-1", page("N-1", "Second")),
        ("https://a.test/3/N-1", page("N-1", "Third")),
    ]);
    let found = search(&mut world, &mut scraping, "N-1", &default_number_extractor(), None, None);
    assert_eq!(found.unwrap().unwrap().title, "Second");
    assert_eq!(world.fetched, vec!["https://a.test/1/N-1", "https://a.test/2/N-1"]);
}

#[test]
fn identifier_is_reshaped_before_it_goes_into_the_address() {
    let mut parser = source("a", "https://a.test/d/");
    parser.number_pre_handle = vec![
        NumberHandle { name: "*".to_string(), rule: vec![rule("lowercase", &[])] },
        NumberHandle { name: "abc".to_string(), rule: vec![rule("replace", &["-", ""])] },
        NumberHandle { name: "xyz".to_string(), rule: vec![rule("append", &["?"])] },
    ];
    parser.source_allow_use_site_number = Some(false);
    assert_eq!(parser.search_number_of("ABC-123"), "ABC123");
    assert_eq!(parser.search_number_of("QQ-1"), "qq-1");
    let mut scraping = Scraping::new(false, no_translation(), holder(vec![parser]));
    let mut world = World::new(&[("https://a.test/d/ABC123", page("abc00123", "T"))]);
    let found = search(&mut world, &mut scraping, "ABC-123", &default_number_extractor(), None, None)
        .unwrap()
        .unwrap();
    assert_eq!(found.number, "ABC-123");
    assert_eq!(found.website, "https://a.test/d/ABC123");
}

#[test]
fn gate_is_fetched_first_and_not_read() {
    let mut parser = source("a", "https://a.test/d/");
    parser.source_age_check = Some(AgeCheck {
        url: "https://a.test/age".to_string(),
        target_name: "rurl".to_string(),
        target_url: "https://a.test/".to_string(),
    });
    let mut scraping = Scraping::new(false, no_translation(), holder(vec![parser.clone()]));
    let mut world = World::new(&[("https://a.test/d/N-1", page("N-1", "T"))]);
    let found = search(&mut world, &mut scraping, "N-1", &default_number_extractor(), None, None);
    assert_eq!(found.unwrap().unwrap().title, "T");
    assert_eq!(
        world.fetched,
        vec!["https://a.test/age?rurl=https%3A%2F%2Fa.test%2F", "https://a.test/d/N-1"]
    );
    match parser.search("N-1").unwrap() {
        LookupStep::Fetch { stage: LookupStage::Gate, .. } => {}
        other => panic!("{:?}", other),
    }
}

#[test]
fn search_page_gives_the_sources_own_identifier() {
    let mut parser = source("a", "https://a.test/d/");
    parser.site_search = Some(SiteSearch {
        url: "https://a.test/s?q=".to_string(),
        site_number_pre_handle: Some(vec![rule("lowercase", &[])]),
        expr_number: "//tr/td[1]/text()".to_string(),
        expr_id: "//tr/td[2]/text()".to_string(),
        site_number_post_handle: Some(vec![rule("trim", &[])]),
        site_id_post_handle: None,
    });
    let results = "<html><body><table><tr><td> N-2 </td><td>id2</td></tr>\
<tr><td>N-1</td><td>id1</td></tr><tr><td>N-1</td><td>id1b</td></tr><tr><td>N-9</td></tr></table></body></html>";
    let search_of = parser.site_search.clone().unwrap();
    assert_eq!(
        search_of.parse_search_result(results).unwrap(),
        vec![
            ("N-2".to_string(), "id2".to_string()),
            ("N-1".to_string(), "id1".to_string()),
            ("N-1".to_string(), "id1b".to_string()),
        ]
    );
    assert_eq!(search_of.resolve(results, "N-1").unwrap(), Some("id1".to_string()));
    assert_eq!(search_of.resolve(results, "N-9").unwrap(), None);
    assert_eq!(search_of.search_address("N-1").unwrap(), "https://a.test/s?q=n-1");
    let mut scraping = Scraping::new(false, no_translation(), holder(vec![parser]));
    let mut world = World::new(&[
        ("https://a.test/s?q=n-1", results.to_string()),
        ("https://a.test/d/id1", page("N-1", "Resolved")),
        ("https://a.test/d/N-1", page("N-1", "Unresolved")),
    ]);
    let found = search(&mut world, &mut scraping, "N-1", &default_number_extractor(), None, None);
    assert_eq!(found.unwrap().unwrap().title, "Resolved");
    let found = search(&mut world, &mut scraping, "N-7", &default_number_extractor(), None, None);
    assert!(found.unwrap().is_none());
    assert_eq!(world.fetched.last().unwrap(), "https://a.test/s?q=n-7");
}

#[test]
fn a_bad_address_is_an_error() {
    let mut scraping = Scraping::new(false, no_translation(), holder(vec![source("a", "no scheme/")]));
    let mut world = World::new(&[]);
    let found = search(&mut world, &mut scraping, "N-1", &default_number_extractor(), None, None);
    assert!(matches!(found, Err(ConfigError::InvalidUrl)));
}

#[test]
fn translations_replace_title_and_outline() {
    let mut scraping =
        Scraping::new(false, azure("title,,studio,outline"), holder(vec![source("a", "https://a.test/d/")]));
    let mut world = World::new(&[("https://a.test/d/N-1", page("N-1", "A Title"))]);
    world.replies.insert(
        "[{\"text\":\"A Title\"}]".to_string(),
        "[{\"translations\":[{\"text\":\"Un titre\",\"to\":\"fr\"}]}]".to_string(),
    );
    world.replies.insert(
        "[{\"text\":\"An outline\"}]".to_string(),
        "[{\"translations\":[{\"text\":\"Un plan\"}]}]".to_string(),
    );
    let found = search(&mut world, &mut scraping, "N-1", &default_number_extractor(), None, None)
        .unwrap()
        .unwrap();
    assert_eq!(found.title, "Un titre");
    assert_eq!(found.outline, "Un plan");
    assert_eq!(found.number, "N-1");
    assert_eq!(world.asked.len(), 2);
    let request = &world.asked[0];
    assert_eq!(request.url, "https://t.test/translate");
    assert_eq!(
        request.headers,
        vec![
            ("Content-Type".to_string(), "application/json".to_string()),
            ("Ocp-Apim-Subscription-Key".to_string(), "KEY".to_string()),
            ("Ocp-Apim-Subscription-Region".to_string(), "global".to_string()),
        ]
    );
    assert_eq!(
        request.query,
        vec![("from".to_string(), "ja".to_string()), ("to".to_string(), "zh-Hans".to_string())]
    );
}

#[test]
fn absent_translation_leaves_the_record_untouched() {
    let mut scraping = Scraping::new(false, azure("title,outline"), holder(vec![source("a", "https://a.test/d/")]));
    let mut world = World::new(&[("https://a.test/d/N-1", page("N-1", "A Title"))]);
    world.replies.insert("[{\"text\":\"An outline\"}]".to_string(), "{\"error\":{\"code\":401}}".to_string());
    let found = search(&mut world, &mut scraping, "N-1", &default_number_extractor(), None, None)
        .unwrap()
        .unwrap();
    assert_eq!(found.title, "A Title");
    assert_eq!(found.outline, "An outline");
    assert!(found.is_valid());
    assert_eq!(world.asked.len(), 2);
}

#[test]
fn other_engines_and_switch_off_translate_nothing() {
    let mut other = azure("title");
    other.engine = "other".to_string();
    let mut off = azure("title");
    off.switch = false;
    for translate in [other, off] {
        let mut scraping = Scraping::new(false, translate, holder(vec![source("a", "https://a.test/d/")]));
        let mut world = World::new(&[("https://a.test/d/N-1", page("N-1", "A Title"))]);
        let found = search(&mut world, &mut scraping, "N-1", &default_number_extractor(), None, None);
        assert_eq!(found.unwrap().unwrap().title, "A Title");
        assert!(world.asked.is_empty());
    }
}

#[test]
fn translator_writes_requests_and_reads_replies() {
    let translator =
        AzureTranslator::new("https://t.test".to_string(), "K".to_string(), Some("japaneast".to_string()));
    let request = translator.request("say \"hi\"\n", "en", "fr");
    assert_eq!(request.body, "[{\"text\":\"say \\\"hi\\\"\\n\"}]");
    assert_eq!(request.headers[2].1, "japaneast");
    assert_eq!(request.query[0], ("from".to_string(), "en".to_string()));
    assert_eq!(request.query[1], ("to".to_string(), "fr".to_string()));
    assert_eq!(
        AzureTranslator::read_response("[{\"translations\":[{\"text\":\"Bonjour\",\"to\":\"fr\"}]}]"),
        Some("Bonjour".to_string())
    );
    assert_eq!(AzureTranslator::read_response("[]"), None);
    assert_eq!(AzureTranslator::read_response("not json"), None);
    assert_eq!(AzureTranslator::read_response("[{\"translations\":[{\"text\":5}]}]"), None);
}

#[test]
fn states_out_of_range_end_the_search() {
    let scraping = Scraping::new(false, no_translation(), holder(vec![source("a", "https://a.test/d/")]));
    let state = SearchState::Source {
        number: "N".to_string(),
        try_list: vec!["a".to_string()],
        index: 5,
        stage: LookupStage::Gate,
    };
    assert!(matches!(scraping.resume(state, None), Ok(SearchStep::Done(None))));
    let state = SearchState::Source {
        number: "N".to_string(),
        try_list: vec!["a".to_string()],
        index: 0,
        stage: LookupStage::Detail { number: "N".to_string(), index: 9 },
    };
    assert!(matches!(scraping.resume(state, Some("<html/>")), Ok(SearchStep::Done(None))));
}

#[test]
fn identifier_goes_where_the_template_says() {
    let mut scraping = Scraping::new(
        false,
        no_translation(),
        holder(vec![source("a", "https://a.test/film/{id}/page?x={id}")]),
    );
    let mut world = World::new(&[("https://a.test/film/N-1/page?x=N-1", page("N-1", "T"))]);
    let found = search(&mut world, &mut scraping, "N-1", &default_number_extractor(), None, None)
        .unwrap()
        .unwrap();
    assert_eq!(found.website, "https://a.test/film/N-1/page?x=N-1");
}

#[test]
fn both_cover_placeholders_are_filled() {
    let mut parser = source("a", "https://a.test/d/");
    parser.expr_cover = "string(//a[@id='$identifier']/@href)".to_string();
    parser.expr_small_cover = "string(//a[@id='$cover_number']/@href)".to_string();
    let html = page("N-1", "T").replace("</body>", "<a id=\"N-1\" href=\"/c.jpg\">c</a></body>");
    let movie = parser.parse_to_movie(&html, "u".to_string()).unwrap();
    assert_eq!(movie.cover, "/c.jpg");
    assert_eq!(movie.cover_small, "/c.jpg");
}
