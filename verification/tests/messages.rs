use tsuzuri::event_json::{extract_event_name_payload, only_entry, Shape};
use tsuzuri::store::payload::Payload;
use tsuzuri::store::sync::error::{Cause, StoreError};
use tsuzuri::store::sync::memory_store::MemoryStore;
use tsuzuri::store::sync::reader::Reader;
use tsuzuri::store::sync::writer::Writer;
use tsuzuri::wire::push_number;

fn number(n: usize) -> String {
    let mut text = String::new();
    push_number(&mut text, n);
    text
}

#[test]
fn numbers_are_put_in_words_in_decimal() {
    assert_eq!(number(0), "0");
    assert_eq!(number(9), "9");
    assert_eq!(number(10), "10");
    assert_eq!(number(1234567890), "1234567890");
    assert_eq!(number(usize::MAX), usize::MAX.to_string());
    let mut text = "n = ".to_string();
    push_number(&mut text, 42);
    assert_eq!(text, "n = 42");
}

#[test]
fn a_conflict_says_which_place_was_taken() {
    let mut store = MemoryStore::new();
    store.write("acct-1", Payload::stamped("acct-1", 3, vec![], None, 0)).unwrap();
    let error = store.write("acct-1", Payload::stamped("acct-1", 3, vec![], None, 0)).unwrap_err();
    assert_eq!(
        error.message(),
        "Failed to write data: Payload with sequence 3 already exists for id acct-1"
    );
}

#[test]
fn a_missing_envelope_says_which_place_was_empty() {
    let store = MemoryStore::new();
    let error = store.read("acct-1", 12).unwrap_err();
    assert_eq!(
        error.message(),
        "Failed to read data: Payload not found for id: acct-1 and sequence: 12"
    );
}

#[test]
fn a_backend_speaks_for_itself() {
    let cause = Cause::Backend("connection refused".to_string());
    assert_eq!(cause.message(), "connection refused");
    assert_eq!(
        StoreError::Setup(Cause::Backend("connection refused".to_string())).message(),
        "Failed setup database: connection refused"
    );
    assert_eq!(
        StoreError::Write(Cause::Backend("disk full".to_string())).message(),
        "Failed to write data: disk full"
    );
    assert_eq!(
        StoreError::Read(Cause::Backend("timeout".to_string())).message(),
        "Failed to read data: timeout"
    );
    assert_eq!(
        Cause::NotFound { id: "x".to_string(), sequence: 0 }.message(),
        "Payload not found for id: x and sequence: 0"
    );
    assert_eq!(
        Cause::AlreadyExists { id: "".to_string(), sequence: usize::MAX }.message(),
        format!("Payload with sequence {} already exists for id ", usize::MAX)
    );
}

#[test]
fn the_one_entry_of_an_object_is_the_event() {
    let shape = Shape::Object(vec![("EventName".to_string(), 7)]);
    assert_eq!(only_entry(shape), Ok(("EventName".to_string(), 7)));
}

#[test]
fn other_shapes_are_no_events() {
    assert_eq!(only_entry(Shape::<u8>::Other), Err("event is not an object"));
    assert_eq!(only_entry(Shape::<u8>::Object(Vec::new())), Err("event is empty"));
    assert_eq!(
        only_entry(Shape::Object(vec![("A".to_string(), 1), ("B".to_string(), 2)])),
        Err("event contains multiple keys")
    );
    assert_eq!(
        only_entry(Shape::Object(vec![
            ("A".to_string(), 1),
            ("B".to_string(), 2),
            ("C".to_string(), 3)
        ])),
        Err("event contains multiple keys")
    );
}

#[test]
fn the_name_and_payload_of_an_event_are_taken_from_its_json_value() {
    let value: serde_json::Value = serde_json::from_str("{\"EventName\": {\"foo\": 1}}").unwrap();
    let (name, payload) = extract_event_name_payload(value).unwrap();
    assert_eq!(name, "EventName");
    assert_eq!(payload, serde_json::from_str::<serde_json::Value>("{\"foo\": 1}").unwrap());
}

#[test]
fn json_values_that_are_no_events_are_told_apart() {
    let parse = |text: &str| serde_json::from_str::<serde_json::Value>(text).unwrap();
    assert_eq!(extract_event_name_payload(parse("[1, 2]")), Err("event is not an object"));
    assert_eq!(extract_event_name_payload(parse("\"EventName\"")), Err("event is not an object"));
    assert_eq!(extract_event_name_payload(parse("null")), Err("event is not an object"));
    assert_eq!(extract_event_name_payload(parse("{}")), Err("event is empty"));
    assert_eq!(
        extract_event_name_payload(parse("{\"A\": 1, \"B\": 2}")),
        Err("event contains multiple keys")
    );
}
