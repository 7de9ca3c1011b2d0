use synapse::json::{Json, MAX_DEPTH, RESERVED_NAME};
use synapse::table::Table;
use synapse::text::{
    comes_before, contains, contains_char, decimal_text, parse_u32, same_text, split_once, starts_with,
};

#[test]
fn text_primitives() {
    assert!(same_text("äb", "äb") && !same_text("äb", "ab") && same_text("", ""));
    assert!(starts_with("abc", "ab") && starts_with("abc", "") && !starts_with("ab", "abc"));
    assert!(contains("abcabd", "abd") && contains("x", "") && !contains("abc", "ac"));
    for (a, b) in [("", "a"), ("a", "ab"), ("ab", "b"), ("a", "a"), ("ä", "z"), ("", "")] {
        assert_eq!(comes_before(a, b), a < b);
        assert_eq!(comes_before(b, a), b < a);
    }
    assert!(contains_char("a*b", '*') && !contains_char("", '*'));
    assert_eq!(
        split_once("a:b:c", ':'),
        Some(("a".to_string(), "b:c".to_string()))
    );
    assert_eq!(split_once("abc", ':'), None);
    assert_eq!(split_once(":", ':'), Some((String::new(), String::new())));
}

#[test]
fn numbers_as_text() {
    for n in [0, 9, 10, 4294967295, 18446744073709551615] {
        assert_eq!(decimal_text(n), n.to_string());
    }
    for text in ["0", "007", "+1", "4294967295", "4294967296", "", "+", "-1", "1 ", "１"] {
        assert_eq!(parse_u32(text), text.parse::<u32>().ok());
    }
}

#[test]
fn tables_keep_the_order_of_names() {
    let mut table = Table::new();
    table.insert("b", 1);
    table.insert("a", 2);
    table.insert("b", 3);
    assert_eq!(table.len(), 2);
    assert_eq!((table.name_at(0), *table.value_at(0)), ("b", 3));
    assert_eq!((table.name_at(1), *table.value_at(1)), ("a", 2));
    assert_eq!(table.get("b"), Some(&3));
    assert_eq!(table.get("c"), None);
    assert!(table.contains_key("a") && !table.contains_key(""));
    assert_eq!(table.clone().len(), 2);
}

#[test]
fn json_text_is_read_and_written() {
    let text = "{\"a\":[null,true,-1,1.5,\"x\\\"\"],\"b\":{}}";
    let json = Json::parse(text).unwrap();
    assert_eq!(json.to_compact(), text);
    assert_eq!(json.clone().to_compact(), text);
    assert_eq!(json.get("a").unwrap().to_compact(), "[null,true,-1,1.5,\"x\\\"\"]");
    assert!(json.get("c").is_none());
    assert!(Json::parse("{").is_none());
    assert!(Json::parse("").is_none());
    assert_eq!(Json::parse(" \"x\" ").unwrap().as_str(), Some("x"));
    assert_eq!(Json::integer(7).to_compact(), "7");
    assert_eq!(
        Json::object().with("k", Json::integer(1)).to_pretty(),
        "{\n  \"k\": 1\n}"
    );
}

#[test]
fn later_members_replace_earlier_ones() {
    let json = Json::object().with("k", Json::text("old")).with("k", Json::text("new"));
    assert_eq!(json.text_at("k"), Some("new"));
    assert_eq!(json.to_compact(), "{\"k\":\"new\"}");
    assert_eq!(Json::parse("{\"k\":1,\"k\":2}").unwrap().to_compact(), "{\"k\":2}");
    assert_eq!(Json::Null.with("k", Json::text("x")).to_compact(), "null");
    assert_eq!(Json::optional_text(&None).to_compact(), "null");
    assert_eq!(Json::optional_text(&Some("t".to_string())).as_str(), Some("t"));
}

#[test]
fn documents_are_read_down_to_a_depth() {
    let nested = |depth: usize| {
        let mut json = Json::integer(1);
        for _ in 0..depth {
            json = Json::Array(vec![json]);
        }
        json.to_compact()
    };
    assert_eq!(Json::parse(&nested(127)).unwrap().to_compact(), nested(127));
    assert!(Json::parse(&nested(128)).is_none());
}

#[test]
fn documents_that_read_back() {
    let parsed = |text: &str| Json::parse(text).unwrap();
    for text in ["null", "-7", "18446744073709551615", "[[],{\"a\":{\"b\":[1,\"x\"]}}]"] {
        assert!(parsed(text).can_read_back(MAX_DEPTH));
        assert_eq!(parsed(&parsed(text).to_compact()).to_compact(), text);
    }
    assert!(!parsed("1.5").can_read_back(MAX_DEPTH));
    assert!(!parsed("{\"a\":[1e30]}").can_read_back(MAX_DEPTH));
    assert!(parsed("[[1]]").can_read_back(2) && !parsed("[[1]]").can_read_back(1));
    assert!(parsed("{\"a\":1}").can_read_back(1) && !parsed("{}").can_read_back(0));
    let replaced = Json::object().with("k", parsed("1.5")).with("k", parsed("1"));
    assert!(replaced.can_read_back(MAX_DEPTH));
    let hidden = Json::object().with("k", parsed("1")).with("k", parsed("1.5"));
    assert!(!hidden.can_read_back(MAX_DEPTH));
}

#[test]
fn reserved_names_do_not_read_back_in_front() {
    let json = Json::object().with(RESERVED_NAME, Json::text("x")).with("a", Json::Null);
    assert!(!json.can_read_back(MAX_DEPTH));
    assert!(!Json::Array(vec![json.clone()]).can_read_back(MAX_DEPTH));
    assert!(Json::parse(&json.to_compact()).is_none());
    let behind = Json::object().with(RESERVED_NAME, Json::text("x")).with("!", Json::Null);
    assert!(behind.can_read_back(MAX_DEPTH));
    assert_eq!(Json::parse(&behind.to_compact()).unwrap().to_compact(), behind.to_compact());
    let inner = Json::object().with(RESERVED_NAME, Json::text("[1]"));
    assert_eq!(Json::parse(&inner.to_compact()).unwrap().to_compact(), "[1]");
}
