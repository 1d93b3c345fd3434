use opencode_plugin::document::{parse, print, read_value};
use opencode_plugin::json::Json;
use serde_json::Value;

fn text(s: &str) -> Json {
    Json::Text(s.to_string())
}

#[test]
fn every_kind_of_value_is_read() {
    let json = parse(r#"{"b":[true,null,-3,"x\n"],"a":{}}"#).unwrap();
    assert_eq!(
        json.get("b"),
        Some(&Json::List(vec![Json::Bool(true), Json::Null, Json::Number(Some(-3)), text("x\n")]))
    );
    assert_eq!(json.get("a"), Some(&Json::Object(vec![])));
    assert_eq!(json.get("c"), None);
}

#[test]
fn numbers_beyond_an_i64_denote_no_integer() {
    assert_eq!(parse("9223372036854775807").unwrap().as_i64(), Some(i64::MAX));
    assert_eq!(parse("-9223372036854775808").unwrap().as_i64(), Some(i64::MIN));
    assert_eq!(parse("9223372036854775808").unwrap().as_i64(), None);
    assert_eq!(parse("1.0").unwrap().as_i64(), None);
    assert_eq!(parse("\"1\"").unwrap().as_i64(), None);
}

#[test]
fn a_text_that_is_no_json_is_refused() {
    assert_eq!(parse(""), None);
    assert_eq!(parse("{"), None);
    assert_eq!(parse("{} {}"), None);
    assert_eq!(parse("nul"), None);
}

#[test]
fn the_last_of_equal_names_is_read() {
    assert_eq!(parse(r#"{"a":1,"a":2}"#).unwrap().get("a"), Some(&Json::Number(Some(2))));
}

#[test]
fn the_first_of_equal_names_counts() {
    let json = Json::Object(vec![
        ("a".to_string(), Json::Number(Some(1))),
        ("a".to_string(), Json::Number(Some(2))),
    ]);
    assert_eq!(json.get("a"), Some(&Json::Number(Some(1))));
    assert_eq!(print(&json), r#"{"a":1}"#);
}

#[test]
fn only_objects_have_members() {
    assert_eq!(Json::List(vec![text("a")]).get("a"), None);
    assert_eq!(text("a").get("a"), None);
    assert_eq!(text("a").as_str(), Some("a"));
    assert_eq!(Json::Bool(true).as_str(), None);
}

#[test]
fn values_are_printed_and_read_back() {
    let json = Json::List(vec![
        text("quote \" and \u{1} and \u{e9}"),
        Json::Number(Some(i64::MIN)),
        Json::Object(vec![("k".to_string(), Json::Null), ("l".to_string(), Json::Bool(false))]),
    ]);
    let printed = print(&json);
    assert_eq!(
        printed,
        "[\"quote \\\" and \\u0001 and \u{e9}\",-9223372036854775808,{\"k\":null,\"l\":false}]"
    );
    assert_eq!(parse(&printed), Some(json));
}

#[test]
fn lists_may_be_nested_deeply() {
    let mut json = Json::Null;
    for _ in 0..127 {
        json = Json::List(vec![json]);
    }
    let printed = print(&json);
    assert_eq!(parse(&printed), Some(json));
    assert_eq!(parse(&format!("[{}]", printed)), None);
}

#[test]
fn a_value_of_serde_json_is_read() {
    let value: Value = serde_json::from_str(r#"{"handle":12}"#).unwrap();
    assert_eq!(
        read_value(value),
        Json::Object(vec![("handle".to_string(), Json::Number(Some(12)))])
    );
}
