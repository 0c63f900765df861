use csv_lib::handlers::{get_json, upload_csv};
use csv_lib::json::to_json;
use csv_lib::parser::parse;
use csv_lib::record::Record;
use csv_lib::store::{initial_records, AppState, StartupPolicy};

fn rec(id: &str, name: &str, email: &str) -> Record {
    Record::new(id.to_string(), name.to_string(), email.to_string())
}

#[test]
fn fresh_store_serves_empty_array() {
    let state = AppState::new();
    let resp = get_json(&state);
    assert_eq!(resp.status, 200);
    assert_eq!(resp.body, "[]");
}

#[test]
fn preloaded_store_serves_records_in_file_order() {
    let file_content = "id,name,email\n1,Alice,alice@example.com\n2,Bob,bob@example.com\n";
    let loaded = initial_records(Some(parse(file_content)), StartupPolicy::Abort).unwrap();
    let mut state = AppState::new();
    state.replace(loaded);
    let resp = get_json(&state);
    assert_eq!(resp.status, 200);
    let expected = "[{\"id\":\"1\",\"name\":\"Alice\",\"email\":\"alice@example.com\"},{\"id\":\"2\",\"name\":\"Bob\",\"email\":\"bob@example.com\"}]";
    assert_eq!(resp.body, expected);
}

#[test]
fn upload_replaces_store_wholesale() {
    let mut state = AppState::new();
    state.replace(vec![rec("9", "Old", "old@example.com")]);

    let upload = "id,name,email\n1,Alice,a@example.com\n2,Bob,b@example.com\n3,Carol,c@example.com\n";
    let resp = upload_csv(&mut state, upload);
    assert_eq!(resp.status, 200);
    let expected = "[{\"id\":\"1\",\"name\":\"Alice\",\"email\":\"a@example.com\"},{\"id\":\"2\",\"name\":\"Bob\",\"email\":\"b@example.com\"},{\"id\":\"3\",\"name\":\"Carol\",\"email\":\"c@example.com\"}]";
    assert_eq!(resp.body, expected);

    let after = get_json(&state);
    assert_eq!(after.status, 200);
    assert_eq!(after.body, expected);
    assert!(!after.body.contains("Old"));
}

#[test]
fn failed_upload_reports_error_and_keeps_store() {
    let mut state = AppState::new();
    state.replace(vec![rec("1", "Alice", "alice@example.com")]);
    let before = get_json(&state).body;

    let resp = upload_csv(&mut state, "id,name,email\n2,Bob\n");
    assert_eq!(resp.status, 400);
    assert_eq!(resp.body, "CSV Parse Error: record 2: expected 3 fields, found 2");

    let after = get_json(&state);
    assert_eq!(after.status, 200);
    assert_eq!(after.body, before);
}

#[test]
fn upload_of_empty_body_clears_store() {
    let mut state = AppState::new();
    state.replace(vec![rec("1", "Alice", "alice@example.com")]);
    let resp = upload_csv(&mut state, "");
    assert_eq!(resp.status, 200);
    assert_eq!(resp.body, "[]");
    assert_eq!(get_json(&state).body, "[]");
}

#[test]
fn read_snapshot_is_independent_of_later_replace() {
    let mut state = AppState::new();
    state.replace(vec![rec("1", "Alice", "alice@example.com")]);
    let snapshot = state.read();
    state.replace(vec![rec("2", "Bob", "bob@example.com")]);
    assert_eq!(snapshot.len(), 1);
    assert_eq!(snapshot[0].name, "Alice");
    assert_eq!(get_json(&state).body, "[{\"id\":\"2\",\"name\":\"Bob\",\"email\":\"bob@example.com\"}]");
}

#[test]
fn startup_policy_decides_on_parse_failure() {
    let bad = parse("id,name,email\nonly,two\n");
    assert!(bad.is_err());

    let fallback = initial_records(Some(bad), StartupPolicy::Fallback).unwrap();
    assert_eq!(fallback.len(), 0);

    let bad = parse("id,name,email\nonly,two\n");
    assert!(initial_records(Some(bad), StartupPolicy::Abort).is_err());

    let none = initial_records(None, StartupPolicy::Abort).unwrap();
    assert_eq!(none.len(), 0);
}

#[test]
fn json_escapes_special_characters() {
    let records = vec![rec("a\"b", "back\\slash", "line\nbreak\ttab")];
    let body = to_json(&records);
    assert_eq!(
        body,
        "[{\"id\":\"a\\\"b\",\"name\":\"back\\\\slash\",\"email\":\"line\\nbreak\\ttab\"}]"
    );
}

#[test]
fn json_escapes_control_characters_as_hex() {
    let records = vec![rec("\u{1f}", "\u{08}\u{0c}", "\r")];
    let body = to_json(&records);
    assert_eq!(
        body,
        "[{\"id\":\"\\u001f\",\"name\":\"\\b\\f\",\"email\":\"\\r\"}]"
    );
}

#[test]
fn to_json_of_no_records_is_empty_array() {
    let records: Vec<Record> = Vec::new();
    assert_eq!(to_json(&records), "[]");
}

#[test]
fn parse_then_serialize_round_trips_plain_fields() {
    let input = "id,name,email\n1,Alice,alice@example.com\n";
    let records = parse(input).unwrap();
    let body = to_json(&records);
    let reparsed = parse("id,name,email\n1,Alice,alice@example.com\n").unwrap();
    assert_eq!(to_json(&reparsed), body);
    assert_eq!(body, "[{\"id\":\"1\",\"name\":\"Alice\",\"email\":\"alice@example.com\"}]");
}
