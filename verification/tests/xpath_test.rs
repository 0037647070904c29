use movie_metadata_capture::config::Rule;
use movie_metadata_capture::error::ConfigError;
use movie_metadata_capture::request::{page_address, page_address_with_pair};
use movie_metadata_capture::xpath::{
    evaluate_xpath_node, value_to_string_use_handle, value_to_vec, value_to_vec_use_handle,
    XPathValue,
};

const PAGE: &str = "<html><head><title> The Title </title></head><body>\
<div id=\"n\">ABC-123</div><ul><li>one</li><li>two</li><li>three</li></ul>\
<a href=\"/x.jpg\">pic</a></body></html>";

fn rule(action: &str, args: &[&str]) -> Rule {
    Rule {
        action: action.to_string(),
        args: args.iter().map(|a| a.to_string()).collect(),
        when: None,
    }
}

#[test]
fn empty_expression_is_the_empty_text() {
    let v = evaluate_xpath_node(PAGE, "").unwrap();
    assert!(matches!(v, XPathValue::Text(ref s) if s.is_empty()));
    assert_eq!(v.string(), "");
}

#[test]
fn nodes_come_in_document_order() {
    let v = evaluate_xpath_node(PAGE, "//li/text()").unwrap();
    assert_eq!(v.string(), "one");
    assert_eq!(value_to_vec(v), vec!["one", "two", "three"]);
    let v = evaluate_xpath_node(PAGE, "//li[3]/text() | //li[1]/text()").unwrap();
    assert_eq!(value_to_vec(v), vec!["one", "three"]);
}

#[test]
fn scalars_are_texts_and_flags() {
    let v = evaluate_xpath_node(PAGE, "string(//div[@id='n'])").unwrap();
    assert!(matches!(v, XPathValue::Text(ref s) if s == "ABC-123"));
    assert!(value_to_vec(v).is_empty());
    let v = evaluate_xpath_node(PAGE, "count(//li) > 2").unwrap();
    assert!(matches!(v, XPathValue::Flag(true)));
    assert_eq!(v.string(), "true");
    let v = evaluate_xpath_node(PAGE, "count(//li)").unwrap();
    assert_eq!(v.string(), "3");
    let v = evaluate_xpath_node(PAGE, "//a/@href").unwrap();
    assert_eq!(v.string(), "/x.jpg");
}

#[test]
fn nothing_selected_is_empty() {
    let v = evaluate_xpath_node(PAGE, "//table").unwrap();
    assert_eq!(v.string(), "");
    assert!(value_to_vec(v).is_empty());
}

#[test]
fn bad_expressions_are_reported() {
    assert!(matches!(evaluate_xpath_node(PAGE, "//li["), Err(ConfigError::InvalidExpression)));
    assert!(matches!(
        evaluate_xpath_node(PAGE, "//li/namespace::*"),
        Err(ConfigError::InvalidExpression)
    ));
    assert!(matches!(
        evaluate_xpath_node(PAGE, "nosuchfunction(1)"),
        Err(ConfigError::InvalidExpression)
    ));
}

#[test]
fn handles_work_on_each_text() {
    let handle = Some(vec![rule("append", &["!"]), rule("replace", &["o", "0"])]);
    let v = evaluate_xpath_node(PAGE, "//li/text()").unwrap();
    assert_eq!(value_to_vec_use_handle(v.clone(), &handle), vec!["0ne!", "tw0!", "three!"]);
    assert_eq!(value_to_vec_use_handle(v.clone(), &None), vec!["one", "two", "three"]);
    assert_eq!(value_to_string_use_handle(v.clone(), &handle), "0ne!");
    assert_eq!(value_to_string_use_handle(v, &None), "one");
    let t = evaluate_xpath_node(PAGE, "string(//title)").unwrap();
    assert_eq!(value_to_string_use_handle(t.clone(), &Some(vec![rule("trim", &[])])), "The Title");
    assert!(value_to_vec_use_handle(t, &handle).is_empty());
}

#[test]
fn addresses_are_written_as_the_url_crate_writes_them() {
    assert_eq!(page_address("https://x.test/a b").unwrap(), "https://x.test/a%20b");
    assert_eq!(page_address("HTTPS://X.test").unwrap(), "https://x.test/");
    assert!(matches!(page_address("not a url"), Err(ConfigError::InvalidUrl)));
    assert!(matches!(page_address(""), Err(ConfigError::InvalidUrl)));
    assert_eq!(
        page_address_with_pair("https://x.test/age?a=1", "rurl", "https://x.test/d?id=1").unwrap(),
        "https://x.test/age?a=1&rurl=https%3A%2F%2Fx.test%2Fd%3Fid%3D1"
    );
    assert_eq!(page_address_with_pair("https://x.test", "k", "v").unwrap(), "https://x.test/?k=v");
    assert!(matches!(page_address_with_pair("nope", "k", "v"), Err(ConfigError::InvalidUrl)));
    let long = "a".repeat(70000);
    assert_eq!(
        page_address(&format!("https://x.test/{}", long)).unwrap(),
        format!("https://x.test/{}", long)
    );
    assert_eq!(
        page_address_with_pair("https://x.test/", "k", &long).unwrap(),
        format!("https://x.test/?k={}", long)
    );
}

#[test]
fn prefixes_are_refused_and_colons_in_literals_are_not() {
    assert!(matches!(evaluate_xpath_node(PAGE, "//svg:rect"), Err(ConfigError::InvalidExpression)));
    assert!(matches!(evaluate_xpath_node(PAGE, "//a/@xml:lang"), Err(ConfigError::InvalidExpression)));
    let v = evaluate_xpath_node(PAGE, "count(//a[not(contains(@href, 'http://'))])").unwrap();
    assert_eq!(v.string(), "1");
    let v = evaluate_xpath_node(PAGE, "//ul/child::li[2]/text()").unwrap();
    assert_eq!(v.string(), "two");
    let v = evaluate_xpath_node(PAGE, "concat(\"a:b\", ':')").unwrap();
    assert_eq!(v.string(), "a:b:");
}

#[test]
fn sum_is_refused_and_the_word_namespace_alone_is_not() {
    assert!(matches!(evaluate_xpath_node(PAGE, "sum(//li)"), Err(ConfigError::InvalidExpression)));
    assert!(matches!(evaluate_xpath_node(PAGE, "1 + sum (//li)"), Err(ConfigError::InvalidExpression)));
    assert!(matches!(
        evaluate_xpath_node(PAGE, "//li/namespace :: *"),
        Err(ConfigError::InvalidExpression)
    ));
    let v = evaluate_xpath_node(PAGE, "concat('sum(', 'namespace::', ')')").unwrap();
    assert_eq!(v.string(), "sum(namespace::)");
    assert!(evaluate_xpath_node(PAGE, "namespace-uri(//li)").is_ok());
    let v = evaluate_xpath_node(PAGE, "count(//sum)").unwrap();
    assert_eq!(v.string(), "0");
}
