//! The JSON writer and reader: exact shapes, escaping, numbers, and the
//! round trip between them.

use localauth0::json::{entries_get, parse_object, serialize_object, JsonValue};

fn sample_entries() -> Vec<(String, JsonValue)> {
    vec![
        ("s".to_string(), JsonValue::Str("plain".to_string())),
        ("empty".to_string(), JsonValue::Str(String::new())),
        ("i".to_string(), JsonValue::Int(-42)),
        ("big".to_string(), JsonValue::Int(i64::MAX)),
        ("small".to_string(), JsonValue::Int(i64::MIN)),
        ("t".to_string(), JsonValue::Bool(true)),
        ("f".to_string(), JsonValue::Bool(false)),
        ("z".to_string(), JsonValue::Null),
        (
            "l".to_string(),
            JsonValue::StrList(vec!["a".to_string(), String::new(), "c".to_string()]),
        ),
    ]
}

#[test]
fn serializer_writes_compact_json_in_entry_order() {
    let json: String = serialize_object(&sample_entries());
    assert_eq!(
        json,
        "{\"s\":\"plain\",\"empty\":\"\",\"i\":-42,\"big\":9223372036854775807,\
         \"small\":-9223372036854775808,\"t\":true,\"f\":false,\"z\":null,\
         \"l\":[\"a\",\"\",\"c\"]}"
    );
}

#[test]
fn parse_inverts_serialize() {
    let entries = sample_entries();
    let json: String = serialize_object(&entries);
    let parsed = parse_object(json.as_str()).unwrap();
    assert_eq!(parsed, entries);
}

#[test]
fn escaping_round_trips() {
    let entries: Vec<(String, JsonValue)> = vec![
        (
            "quoted \"name\"".to_string(),
            JsonValue::Str("back\\slash".to_string()),
        ),
        (
            "ctl".to_string(),
            JsonValue::Str("line\nbreak\ttab\u{1}end".to_string()),
        ),
        (
            "unicode".to_string(),
            JsonValue::Str("héllo wörld ☺".to_string()),
        ),
    ];
    let json: String = serialize_object(&entries);
    let parsed = parse_object(json.as_str()).unwrap();
    assert_eq!(parsed, entries);

    // serde_json agrees on the escaped text.
    let value: serde_json::Value = serde_json::from_str(json.as_str()).unwrap();
    assert_eq!(
        value.get("quoted \"name\"").unwrap(),
        "back\\slash"
    );
    assert_eq!(value.get("ctl").unwrap(), "line\nbreak\ttab\u{1}end");
    assert_eq!(value.get("unicode").unwrap(), "héllo wörld ☺");
}

#[test]
fn duplicate_names_are_preserved_and_the_last_wins_on_lookup() {
    let entries: Vec<(String, JsonValue)> = vec![
        ("permissions_x".to_string(), JsonValue::Str("a".to_string())),
        ("permissions_x".to_string(), JsonValue::Str("b".to_string())),
    ];
    let json: String = serialize_object(&entries);
    assert_eq!(json, "{\"permissions_x\":\"a\",\"permissions_x\":\"b\"}");
    let parsed = parse_object(json.as_str()).unwrap();
    assert_eq!(parsed.len(), 2);
    assert_eq!(
        entries_get(&parsed, "permissions_x"),
        Some(JsonValue::Str("b".to_string()))
    );
    // serde_json reads the same winner out of the duplicate keys.
    let value: serde_json::Value = serde_json::from_str(json.as_str()).unwrap();
    assert_eq!(value.get("permissions_x").unwrap(), "b");
}

#[test]
fn malformed_documents_are_rejected() {
    assert!(parse_object("").is_err());
    assert!(parse_object("{").is_err());
    assert!(parse_object("{}x").is_err());
    assert!(parse_object("[1]").is_err());
    assert!(parse_object("{\"a\":}").is_err());
    assert!(parse_object("{\"a\":1,}").is_err());
    assert!(parse_object("{\"a\":99999999999999999999999999}").is_err());
    assert!(parse_object("{\"a\":\"unterminated}").is_err());
}

#[test]
fn empty_object_round_trips() {
    let entries: Vec<(String, JsonValue)> = Vec::new();
    let json: String = serialize_object(&entries);
    assert_eq!(json, "{}");
    assert_eq!(parse_object("{}").unwrap(), entries);
}

#[test]
fn escape_sequences_of_other_writers_are_understood() {
    let parsed = parse_object(
        "{\"a\":\"tab\\there\",\"b\":\"nl\\nhere\",\"c\":\"sl\\/ash\",\"d\":\"u\\u000borne\"}",
    )
    .unwrap();
    assert_eq!(
        entries_get(&parsed, "a"),
        Some(JsonValue::Str("tab\there".to_string()))
    );
    assert_eq!(
        entries_get(&parsed, "b"),
        Some(JsonValue::Str("nl\nhere".to_string()))
    );
    assert_eq!(
        entries_get(&parsed, "c"),
        Some(JsonValue::Str("sl/ash".to_string()))
    );
    assert_eq!(
        entries_get(&parsed, "d"),
        Some(JsonValue::Str("u\u{b}orne".to_string()))
    );
}
