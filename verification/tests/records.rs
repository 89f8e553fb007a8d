use json_updates::prepare::{prepare_record, prepare_records, PreparedDocument};
use json_updates::record::{Field, JsonValue, Record};

fn text(value: &str) -> JsonValue {
    JsonValue::Text(value.to_string())
}

fn record(fields: Vec<(&str, JsonValue)>) -> Record {
    let mut record = Record::new();
    for (name, value) in fields {
        record.insert(name.to_string(), value);
    }
    record
}

#[test]
fn new_record_has_no_field() {
    let empty = Record::new();
    assert_eq!(empty.get("id"), None);
    assert!(empty.fields().is_empty());
}

#[test]
fn get_finds_what_insert_stored() {
    let stored = record(vec![("id", text("a1")), ("n", JsonValue::Number("7".to_string()))]);
    assert_eq!(stored.get("id"), Some(&text("a1")));
    assert_eq!(stored.get("n"), Some(&JsonValue::Number("7".to_string())));
    assert_eq!(stored.get("missing"), None);
    assert_eq!(stored.get("ID"), None);
}

#[test]
fn insert_replaces_the_value_under_a_name() {
    let stored = record(vec![("id", text("a1")), ("x", JsonValue::Null), ("id", text("b2"))]);
    assert_eq!(stored.get("id"), Some(&text("b2")));
    assert_eq!(stored.get("x"), Some(&JsonValue::Null));
    assert_eq!(
        stored.fields(),
        &vec![
            Field { name: "id".to_string(), value: text("b2") },
            Field { name: "x".to_string(), value: JsonValue::Null },
        ]
    );
}

#[test]
fn text_of_wants_a_string_value() {
    let stored = record(vec![
        ("id", text("a1")),
        ("count", JsonValue::Number("3".to_string())),
        ("flag", JsonValue::Bool(true)),
        ("none", JsonValue::Null),
        ("list", JsonValue::Array(vec![text("a1")])),
        ("nested", JsonValue::Object(vec![("id".to_string(), text("a1"))])),
        ("empty", text("")),
    ]);
    assert_eq!(stored.text_of("id"), Some("a1".to_string()));
    assert_eq!(stored.text_of("empty"), Some(String::new()));
    assert_eq!(stored.text_of("count"), None);
    assert_eq!(stored.text_of("flag"), None);
    assert_eq!(stored.text_of("none"), None);
    assert_eq!(stored.text_of("list"), None);
    assert_eq!(stored.text_of("nested"), None);
    assert_eq!(stored.text_of("absent"), None);
}

#[test]
fn eligible_record_becomes_a_document() {
    let submitted = record(vec![("id", text("a1")), ("v", JsonValue::Bool(false))]);
    let prepared = prepare_record(submitted, "id", 1_700_000_000_123);
    assert_eq!(
        prepared,
        Ok(PreparedDocument {
            id: "a1".to_string(),
            data: record(vec![("id", text("a1")), ("v", JsonValue::Bool(false))]),
            created_at: 1_700_000_000_123,
        })
    );
}

#[test]
fn record_without_identifier_comes_back() {
    let prepared = prepare_record(record(vec![("v", JsonValue::Bool(false))]), "id", 5);
    assert_eq!(prepared, Err(record(vec![("v", JsonValue::Bool(false))])));
}

#[test]
fn record_with_number_identifier_comes_back() {
    let numbered = record(vec![("id", JsonValue::Number("12".to_string()))]);
    let prepared = prepare_record(numbered, "id", 5);
    assert_eq!(prepared, Err(record(vec![("id", JsonValue::Number("12".to_string()))])));
}

#[test]
fn batch_keeps_eligible_records_in_order() {
    let documents = prepare_records(
        vec![
            record(vec![("key", text("one"))]),
            record(vec![("other", text("x"))]),
            record(vec![("key", JsonValue::Null)]),
            record(vec![("key", text("two")), ("n", JsonValue::Number("2".to_string()))]),
            record(vec![]),
        ],
        "key",
        42,
    );
    assert_eq!(
        documents,
        vec![
            PreparedDocument {
                id: "one".to_string(),
                data: record(vec![("key", text("one"))]),
                created_at: 42,
            },
            PreparedDocument {
                id: "two".to_string(),
                data: record(vec![
                    ("key", text("two")),
                    ("n", JsonValue::Number("2".to_string())),
                ]),
                created_at: 42,
            },
        ]
    );
}

#[test]
fn empty_batch_gives_no_document() {
    assert_eq!(prepare_records(vec![], "id", 0), vec![]);
}

#[test]
fn batch_without_eligible_record_gives_no_document() {
    let documents =
        prepare_records(vec![record(vec![("a", text("1"))]), record(vec![])], "id", 9);
    assert_eq!(documents, vec![]);
}

#[test]
fn equal_identifiers_are_both_prepared() {
    let documents = prepare_records(
        vec![record(vec![("id", text("same"))]), record(vec![("id", text("same"))])],
        "id",
        -1,
    );
    assert_eq!(documents.len(), 2);
    assert_eq!(documents[0].id, "same");
    assert_eq!(documents[1].id, "same");
    assert_eq!(documents[0].created_at, -1);
    assert_eq!(documents[1].created_at, -1);
}

#[test]
fn into_fields_gives_the_fields_in_order() {
    let stored = record(vec![("b", JsonValue::Bool(true)), ("a", text("x"))]);
    assert_eq!(
        stored.into_fields(),
        vec![
            Field { name: "b".to_string(), value: JsonValue::Bool(true) },
            Field { name: "a".to_string(), value: text("x") },
        ]
    );
}
