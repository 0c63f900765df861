use csv_lib::parser::{parse, ParseError, ParseErrorKind};
use csv_lib::record::Record;

fn rec(id: &str, name: &str, email: &str) -> Record {
    Record::new(id.to_string(), name.to_string(), email.to_string())
}

fn fields(r: &Record) -> (String, String, String) {
    (r.id.clone(), r.name.clone(), r.email.clone())
}

#[test]
fn valid_rows_parse_in_order() {
    let input = "id,name,email\n1,Alice,alice@example.com\n2,Bob,bob@example.com\n3,Carol,carol@example.com\n";
    let records = parse(input).unwrap();
    assert_eq!(records.len(), 3);
    assert_eq!(fields(&records[0]), fields(&rec("1", "Alice", "alice@example.com")));
    assert_eq!(fields(&records[1]), fields(&rec("2", "Bob", "bob@example.com")));
    assert_eq!(fields(&records[2]), fields(&rec("3", "Carol", "carol@example.com")));
}

#[test]
fn no_trailing_newline_parses() {
    let input = "id,name,email\n1,Alice,alice@example.com";
    let records = parse(input).unwrap();
    assert_eq!(records.len(), 1);
    assert_eq!(records[0].name, "Alice");
}

#[test]
fn header_order_and_case_are_flexible() {
    let input = "Email,ID,Name\nalice@example.com,1,Alice\n";
    let records = parse(input).unwrap();
    assert_eq!(records.len(), 1);
    assert_eq!(records[0].id, "1");
    assert_eq!(records[0].name, "Alice");
    assert_eq!(records[0].email, "alice@example.com");
}

#[test]
fn quoted_header_cells_are_accepted() {
    let input = "\"id\",\"name\",\"email\"\n1,Alice,alice@example.com\n";
    let records = parse(input).unwrap();
    assert_eq!(records.len(), 1);
    assert_eq!(records[0].id, "1");
}

#[test]
fn empty_input_gives_no_records() {
    let records = parse("").unwrap();
    assert_eq!(records.len(), 0);
}

#[test]
fn header_only_gives_no_records() {
    let records = parse("id,name,email\n").unwrap();
    assert_eq!(records.len(), 0);
}

#[test]
fn blank_lines_are_skipped() {
    let input = "id,name,email\n\n1,Alice,alice@example.com\n\n\n2,Bob,bob@example.com\n";
    let records = parse(input).unwrap();
    assert_eq!(records.len(), 2);
    assert_eq!(records[0].name, "Alice");
    assert_eq!(records[1].name, "Bob");
}

#[test]
fn crlf_line_endings_parse() {
    let input = "id,name,email\r\n1,Alice,alice@example.com\r\n2,Bob,bob@example.com\r\n";
    let records = parse(input).unwrap();
    assert_eq!(records.len(), 2);
    assert_eq!(records[1].email, "bob@example.com");
}

#[test]
fn quoted_field_keeps_comma_and_quote() {
    let input = "id,name,email\n1,\"Smith, \"\"Al\"\"\",al@example.com\n";
    let records = parse(input).unwrap();
    assert_eq!(records.len(), 1);
    assert_eq!(records[0].name, "Smith, \"Al\"");
}

#[test]
fn quoted_field_keeps_newline() {
    let input = "id,name,email\n1,\"two\nlines\",x@example.com\n";
    let records = parse(input).unwrap();
    assert_eq!(records.len(), 1);
    assert_eq!(records[0].name, "two\nlines");
}

#[test]
fn carriage_return_alone_terminates_records() {
    let input = "id,name,email\r1,Alice,alice@example.com\r2,Bob,bob@example.com";
    let records = parse(input).unwrap();
    assert_eq!(records.len(), 2);
    assert_eq!(records[0].name, "Alice");
    assert_eq!(records[1].name, "Bob");
}

#[test]
fn quoted_empty_field_counts_as_a_field() {
    let input = "id,name,email\n1,\"\",x@example.com\n";
    let records = parse(input).unwrap();
    assert_eq!(records.len(), 1);
    assert_eq!(records[0].name, "");
}

#[test]
fn empty_fields_are_allowed() {
    let input = "id,name,email\n1,,\n";
    let records = parse(input).unwrap();
    assert_eq!(records.len(), 1);
    assert_eq!(records[0].name, "");
    assert_eq!(records[0].email, "");
}

#[test]
fn missing_column_fails_whole_parse() {
    let input = "id,name,email\n1,Alice,alice@example.com\n2,Bob\n3,Carol,carol@example.com\n";
    let err = parse(input).unwrap_err();
    assert_eq!(
        err,
        ParseError { kind: ParseErrorKind::WrongFieldCount, record: 3, fields: 2 }
    );
}

#[test]
fn extra_column_fails_whole_parse() {
    let input = "id,name,email\n1,Alice,alice@example.com,extra\n";
    let err = parse(input).unwrap_err();
    assert_eq!(
        err,
        ParseError { kind: ParseErrorKind::WrongFieldCount, record: 2, fields: 4 }
    );
}

#[test]
fn wrong_header_name_is_rejected() {
    let input = "id,name,mail\n1,Alice,alice@example.com\n";
    let err = parse(input).unwrap_err();
    assert_eq!(err.kind, ParseErrorKind::BadHeader);
    assert_eq!(err.record, 1);
}

#[test]
fn duplicate_header_name_is_rejected() {
    let input = "id,id,email\n1,Alice,alice@example.com\n";
    let err = parse(input).unwrap_err();
    assert_eq!(err.kind, ParseErrorKind::BadHeader);
}

#[test]
fn four_column_header_is_rejected() {
    let input = "id,name,email,age\n1,Alice,alice@example.com,33\n";
    let err = parse(input).unwrap_err();
    assert_eq!(err.kind, ParseErrorKind::BadHeader);
    assert_eq!(err.fields, 4);
}

#[test]
fn unterminated_quote_is_rejected() {
    let input = "id,name,email\n1,\"Alice,alice@example.com\n";
    let err = parse(input).unwrap_err();
    assert_eq!(err.kind, ParseErrorKind::UnterminatedQuote);
    assert_eq!(err.record, 2);
}

#[test]
fn text_after_closing_quote_is_rejected() {
    let input = "id,name,email\n1,\"Alice\"x,alice@example.com\n";
    let err = parse(input).unwrap_err();
    assert_eq!(err.kind, ParseErrorKind::CharAfterQuote);
    assert_eq!(err.record, 2);
}

#[test]
fn error_messages_identify_the_record() {
    let input = "id,name,email\n1,Alice,alice@example.com\n2,Bob\n";
    let err = parse(input).unwrap_err();
    assert_eq!(err.message(), "record 3: expected 3 fields, found 2");

    let err = parse("id,name,mail\n").unwrap_err();
    assert_eq!(err.message(), "record 1: header must name the columns id, name, email");

    let err = parse("id,name,email\n1,\"x,y@example.com\n").unwrap_err();
    assert_eq!(err.message(), "record 2: unterminated quoted field");

    let err = parse("id,name,email\n1,\"x\"y,y@example.com\n").unwrap_err();
    assert_eq!(err.message(), "record 2: unexpected character after closing quote");
}
