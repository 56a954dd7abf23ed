use rocm_telemetry::coerce::{coerce_float_text, coerce_u32, fit_u32};
use rocm_telemetry::json::{lookup, parse_json, Json, JsonNumber};
use rocm_telemetry::merge::{lay_over, merge_into};
use rocm_telemetry::rocm::RocmSnapshot;

fn doc(text: &str) -> Json {
    parse_json(text.as_bytes()).expect("valid JSON")
}

fn field(text: &str) -> Json {
    match doc(text) {
        Json::Object(members) => {
            members.into_iter().find(|m| m.0 == "v").expect("member v").1
        }
        other => panic!("no object: {:?}", other),
    }
}

fn number(unsigned: Option<u64>, text: &str) -> Json {
    Json::Number(JsonNumber { unsigned, text: text.to_string() })
}

#[test]
fn parse_json_reads_every_kind_of_value() {
    let root = doc(r#"{"a": null, "b": true, "c": 1350, "d": "x", "e": [1, "y"], "f": {"g": false}}"#);
    assert_eq!(root.get("a"), Some(&Json::Null));
    assert_eq!(root.get("b"), Some(&Json::Bool(true)));
    assert_eq!(root.get("c"), Some(&number(Some(1350), "1350")));
    assert_eq!(root.get("d"), Some(&Json::Text("x".to_string())));
    assert_eq!(
        root.get("e"),
        Some(&Json::Array(vec![number(Some(1), "1"), Json::Text("y".to_string())]))
    );
    assert_eq!(
        root.get("f"),
        Some(&Json::Object(vec![("g".to_string(), Json::Bool(false))]))
    );
    assert_eq!(root.get("missing"), None);
}

#[test]
fn parse_json_keeps_numbers_as_integer_and_text() {
    assert_eq!(field(r#"{"v": 0}"#), number(Some(0), "0"));
    assert_eq!(field(r#"{"v": 18446744073709551615}"#), number(Some(u64::MAX), "18446744073709551615"));
    assert_eq!(field(r#"{"v": -5}"#), number(None, "-5"));
    assert_eq!(field(r#"{"v": 50.5}"#), number(None, "50.5"));
    assert_eq!(field(r#"{"v": 63.0}"#), number(None, "63.0"));
}

#[test]
fn number_text_reads_back_as_the_same_float() {
    for source in ["0", "1350", "-5", "50.5", "63.0", "1e30", "2.5e-3", "18446744073709551615", "0.1"] {
        let value = field(&format!("{{\"v\": {}}}", source));
        let text = coerce_float_text(&value).expect("a number has a text");
        assert_eq!(text.parse::<f64>().unwrap(), source.parse::<f64>().unwrap(), "{}", source);
    }
}

#[test]
fn parse_json_rejects_what_is_not_json() {
    assert_eq!(parse_json(b""), None);
    assert_eq!(parse_json(b"{"), None);
    assert_eq!(parse_json(b"{\"a\": }"), None);
    assert_eq!(parse_json(b"not json"), None);
    assert_eq!(parse_json(b"{} trailing"), None);
    assert_eq!(parse_json(&[0xff, 0xfe]), None);
}

#[test]
fn parse_json_accepts_roots_that_are_no_objects() {
    assert_eq!(parse_json(b"[]"), Some(Json::Array(vec![])));
    assert_eq!(parse_json(b"\"x\""), Some(Json::Text("x".to_string())));
    assert_eq!(parse_json(b"null"), Some(Json::Null));
    assert_eq!(parse_json(b" 7 "), Some(number(Some(7), "7")));
}

#[test]
fn accessors_tell_values_apart() {
    let root = doc(r#"{"s": "text", "o": {"k": 1}, "n": 3}"#);
    assert_eq!(root.get("s").unwrap().as_str(), Some("text"));
    assert_eq!(root.get("o").unwrap().as_str(), None);
    assert!(root.get("o").unwrap().as_object().is_some());
    assert!(root.get("s").unwrap().as_object().is_none());
    assert_eq!(root.get("s").unwrap().get("k"), None);
    assert_eq!(root.get("o").unwrap().get("k"), Some(&number(Some(1), "1")));
}

#[test]
fn lookup_finds_the_first_member_of_a_name() {
    let members = vec![
        ("a".to_string(), Json::Bool(true)),
        ("b".to_string(), Json::Null),
        ("a".to_string(), Json::Bool(false)),
    ];
    assert_eq!(lookup(&members, "a"), Some(&Json::Bool(true)));
    assert_eq!(lookup(&members, "b"), Some(&Json::Null));
    assert_eq!(lookup(&members, "c"), None);
}

#[test]
fn coerce_u32_reads_numbers_and_decorated_strings() {
    assert_eq!(coerce_u32(&field(r#"{"v": 1350}"#)), Some(1350));
    assert_eq!(coerce_u32(&field(r#"{"v": "1350"}"#)), Some(1350));
    assert_eq!(coerce_u32(&field(r#"{"v": "1350Mhz"}"#)), Some(1350));
    assert_eq!(coerce_u32(&field(r#"{"v": "(1350Mhz)"}"#)), Some(1350));
    assert_eq!(coerce_u32(&field(r#"{"v": "(96Mhz)"}"#)), Some(96));
    assert_eq!(coerce_u32(&field(r#"{"v": "+7"}"#)), Some(7));
    assert_eq!(coerce_u32(&field(r#"{"v": "4294967295"}"#)), Some(u32::MAX));
}

#[test]
fn coerce_u32_gives_none_for_what_is_no_number() {
    for source in [
        r#"{"v": ""}"#, r#"{"v": "Mhz"}"#, r#"{"v": "abc"}"#, r#"{"v": "13 50"}"#,
        r#"{"v": " 1350"}"#, r#"{"v": "1350MHz"}"#, r#"{"v": "13.5"}"#, r#"{"v": "-1"}"#,
        r#"{"v": "4294967296"}"#, r#"{"v": null}"#, r#"{"v": true}"#, r#"{"v": [1]}"#,
        r#"{"v": {"a": 1}}"#, r#"{"v": -1}"#, r#"{"v": 1.5}"#,
    ] {
        assert_eq!(coerce_u32(&field(source)), None, "{}", source);
    }
}

#[test]
fn coerce_u32_gives_none_for_numbers_that_do_not_fit() {
    assert_eq!(coerce_u32(&field(r#"{"v": 4294967295}"#)), Some(u32::MAX));
    assert_eq!(coerce_u32(&field(r#"{"v": 4294967296}"#)), None);
    assert_eq!(coerce_u32(&field(r#"{"v": 4294967301}"#)), None);
    assert_eq!(coerce_u32(&field(r#"{"v": 18446744073709551615}"#)), None);
    assert_eq!(coerce_u32(&field(r#"{"v": 1350.5}"#)), None);
    assert_eq!(coerce_u32(&field(r#"{"v": -1}"#)), None);
    assert_eq!(fit_u32(0), Some(0));
    assert_eq!(fit_u32(7), Some(7));
    assert_eq!(fit_u32(4294967295), Some(u32::MAX));
    assert_eq!(fit_u32(4294967296), None);
    assert_eq!(fit_u32(u64::MAX), None);
}

#[test]
fn number_and_string_agree_on_what_does_not_fit() {
    for n in [4294967296u64, 4294967301, u64::MAX] {
        let plain = field(&format!("{{\"v\": {}}}", n));
        let written = field(&format!("{{\"v\": \"{}\"}}", n));
        assert_eq!(coerce_u32(&plain), None);
        assert_eq!(coerce_u32(&written), None);
    }
}

#[test]
fn decorated_and_plain_readings_agree() {
    for n in [0u32, 7, 96, 1350, 2400, u32::MAX] {
        let plain = field(&format!("{{\"v\": {}}}", n));
        for (before, after) in [("", ""), ("", "Mhz"), ("(", "Mhz)"), ("((", "))"), ("m", "z"), ("", "MMM")] {
            let decorated = field(&format!("{{\"v\": \"{}{}{}\"}}", before, n, after));
            assert_eq!(coerce_u32(&decorated), coerce_u32(&plain));
            assert_eq!(coerce_u32(&decorated), Some(n));
        }
    }
}

#[test]
fn coerce_float_text_picks_number_or_string() {
    assert_eq!(coerce_float_text(&field(r#"{"v": 41.5}"#)), Some("41.5".to_string()));
    assert_eq!(coerce_float_text(&field(r#"{"v": 41}"#)), Some("41".to_string()));
    assert_eq!(coerce_float_text(&field(r#"{"v": "41.0"}"#)), Some("41.0".to_string()));
    assert_eq!(coerce_float_text(&field(r#"{"v": "N/A"}"#)), Some("N/A".to_string()));
    assert_eq!(coerce_float_text(&field(r#"{"v": ""}"#)), Some(String::new()));
    assert_eq!(coerce_float_text(&field(r#"{"v": null}"#)), None);
    assert_eq!(coerce_float_text(&field(r#"{"v": true}"#)), None);
    assert_eq!(coerce_float_text(&field(r#"{"v": [1.5]}"#)), None);
    assert_eq!(coerce_float_text(&field(r#"{"v": {}}"#)), None);
}

fn root(text: &str) -> RocmSnapshot {
    RocmSnapshot::parse(text.as_bytes()).expect("an object")
}

fn map(text: &str) -> serde_json::Map<String, serde_json::Value> {
    root(text).cards
}

fn value(text: &str) -> serde_json::Value {
    serde_json::from_str(text).expect("valid JSON")
}

#[test]
fn root_is_read_from_an_object_only() {
    assert_eq!(RocmSnapshot::parse(b"{}").unwrap().cards.len(), 0);
    assert_eq!(RocmSnapshot::parse(br#"{"a": 1, "b": {}}"#).unwrap().cards.len(), 2);
    for text in ["", "x", "[]", "7", "null", "\"a\"", "{"] {
        assert_eq!(RocmSnapshot::parse(text.as_bytes()), None, "{}", text);
    }
}

#[test]
fn lay_over_lets_the_later_field_win() {
    let mut base = map(r#"{"card0": {"a": 1, "b": 2}, "card1": {"a": 3}}"#);
    lay_over(&mut base, &"card0".to_string(), map(r#"{"b": "x", "c": null}"#));
    assert_eq!(base["card0"], value(r#"{"a": 1, "b": "x", "c": null}"#));
    assert_eq!(base["card1"], value(r#"{"a": 3}"#));
    lay_over(&mut base, &"card0".to_string(), map(r#"{"b": "y"}"#));
    assert_eq!(base["card0"], value(r#"{"a": 1, "b": "y", "c": null}"#));
    assert_eq!(base.len(), 2);
}

#[test]
fn lay_over_leaves_what_is_no_object_or_not_there() {
    let text = r#"{"card0": "text", "card1": {"a": 1}, "system": 5}"#;
    let mut base = map(text);
    lay_over(&mut base, &"card0".to_string(), map(r#"{"a": 1}"#));
    lay_over(&mut base, &"system".to_string(), map(r#"{"a": 1}"#));
    lay_over(&mut base, &"card2".to_string(), map(r#"{"a": 1}"#));
    assert_eq!(base, map(text));
}

#[test]
fn merging_an_empty_document_changes_nothing() {
    let text = r#"{"card0": {"a": 1, "b": "x"}, "card1": {}, "system": "s"}"#;
    let mut base = map(text);
    merge_into(&mut base, &map("{}"));
    assert_eq!(base, map(text));
    merge_into(&mut base, &map(r#"{"card0": {}, "card1": {}}"#));
    assert_eq!(base, map(text));
    let mut whole = root(text);
    whole.merge(&root("{}"));
    assert_eq!(whole, root(text));
}

#[test]
fn merge_lays_fields_over_sections_of_the_same_name() {
    let mut base = root(r#"{"card0": {"a": 1, "b": "x"}, "card1": {"a": 2}}"#);
    base.merge(&root(r#"{"card0": {"b": "y", "c": true}, "card2": {"a": 3}}"#));
    assert_eq!(base, root(r#"{"card0": {"a": 1, "b": "y", "c": true}, "card1": {"a": 2}}"#));
    let names: Vec<&String> = base.cards.keys().collect();
    assert_eq!(names, vec!["card0", "card1"]);
}

#[test]
fn merge_leaves_values_that_are_no_objects() {
    let text = r#"{"card0": "text", "card1": {"a": 1}, "system": 5}"#;
    let mut base = root(text);
    base.merge(&root(r#"{"card0": {"a": 1}, "card1": "text", "system": {"b": 2}}"#));
    assert_eq!(base, root(text));
}
