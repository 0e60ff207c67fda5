use bytes::BytesMut;
use memchr::memchr2;
use sse_agent::parser::Parser;
use sse_agent::wire::{CR, LF};

#[test]
fn buf_cleared_line_ending_with_crlf() {
    let mut p = Parser::from("\r\n");
    p.next();
    assert_eq!(p.bytes(), &[]);
}

#[test]
fn single_lf_should_be_empty_line() {
    let mut p = Parser::from("\n");
    assert_eq!(p.parse_line().expect("parsing line"), &b""[..]);
}

#[test]
fn buf_cleared_line_ending_with_cr() {
    let mut p = Parser::from("\r");
    p.next();
    assert_eq!(p.bytes(), &[]);
}

#[test]
fn buf_cleared_line_ending_with_lf() {
    let mut p = Parser::from("\n");
    p.next();
    assert_eq!(p.bytes(), &[]);
}

#[test]
fn lines_starting_with_colon_are_ignored() {
    let mut p = Parser::from(":ok");
    assert!(p.next().is_none());
}

#[test]
fn test_memchr_order() {
    let bs = &b"abcd\r\n"[..];
    assert_eq!(memchr2(CR, LF, bs), Some(4));
    assert_eq!(memchr2(LF, CR, bs), Some(4));
}

#[test]
fn colon_as_last_char_in_row() {
    let mut p = Parser::from("data:\n\n");
    let ev = p.next().expect("Expected an event").expect("Should parse");
    assert_eq!(ev.event, "");
    assert_eq!(ev.data, "");
}

#[test]
fn parse_example_2_events() {
    let mut p = Parser::from(
        r#"
data

data
data

data:"#,
    );

    let ev = p.next().expect("Event").expect("Parsed");
    assert_eq!(ev.event, "");
    assert_eq!(ev.data, "");

    let ev = p.next().expect("Event").expect("Parsed");
    assert_eq!(ev.event, "");
    assert_eq!(ev.data, "\n");

    assert!(p.next().is_none());
}

#[test]
fn parse_two_identical_events() {
    let mut p = Parser::from(
        r#"
data:test

data: test

"#,
    );

    let ev = p
        .next()
        .expect("Expected first event")
        .expect("Should parse");

    assert_eq!(ev.event, "");
    assert_eq!(ev.data, "test");

    let ev = p
        .next()
        .expect("Expected first event")
        .expect("Should parse");

    assert_eq!(ev.event, "");
    assert_eq!(ev.data, "test");
}

#[test]
fn parse_biggest_example_from_spec_page() {
    let mut p = Parser::from(
        r#"
: test stream

data: first event
id: 1

data:second event
id

data:  third event

"#,
    );

    let ev = p.next().expect("Event").expect("Parses");
    assert_eq!(ev.data, "first event");
    assert_eq!(ev.last_event_id.as_deref(), Some("1"));

    let ev = p.next().expect("Event").expect("Parses");
    assert_eq!(ev.data, "second event");
    assert_eq!(ev.last_event_id.as_deref(), Some(""));

    let ev = p.next().expect("Event").expect("Parses");
    assert_eq!(ev.data, " third event");
    assert_eq!(ev.last_event_id, None);
}

#[test]
fn buf_fiddle() {
    let mut buf = BytesMut::from("1234");

    let left = buf.split_to(1);
    assert_eq!(left, &b"1"[..]);
    assert_eq!(buf, &b"234"[..]);
}
