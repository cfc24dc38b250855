use klogrs::kubernetes::ingest::{
    after_send, ingest, Next, Read, Step, QUEUE_CAPACITY, RETRY_DELAY_MS,
};
use klogrs::kubernetes::log::LogEntry;

fn parse(raw: &str) -> LogEntry {
    LogEntry::parse("pod".to_string(), raw.to_string())
}

#[test]
fn parse_drops_the_first_token() {
    let entry = parse("2023-05-01T12:34:56Z Hello, world!");
    assert_eq!(entry.pod_name, "pod");
    assert_eq!(entry.raw_line, "2023-05-01T12:34:56Z Hello, world!");
    assert_eq!(entry.message, "Hello, world!");
}

#[test]
fn parse_keeps_a_line_without_a_space() {
    let entry = parse("nospace");
    assert_eq!(entry.raw_line, "nospace");
    assert_eq!(entry.message, "nospace");
    let empty = parse("");
    assert_eq!(empty.raw_line, "");
    assert_eq!(empty.message, "");
}

#[test]
fn parse_cuts_at_the_first_space_only() {
    assert_eq!(parse("a b c").message, "b c");
    assert_eq!(parse(" leading").message, "leading");
    assert_eq!(parse("trailing ").message, "");
    assert_eq!(parse("a  b").message, " b");
    assert_eq!(parse("a\tb c").message, "c");
    assert_eq!(parse("\u{e9}t\u{e9} été").message, "été");
}

#[test]
fn parse_strips_carriage_returns_and_nul() {
    let entry = parse("ts one\r\ntwo\0three\r");
    assert_eq!(entry.raw_line, "ts one\ntwothree");
    assert_eq!(entry.message, "one\ntwothree");
    // the space is looked for in the cleaned line
    assert_eq!(parse("\r\0 x").raw_line, " x");
    assert_eq!(parse("\r\0 x").message, "x");
    assert_eq!(parse("\r\r").raw_line, "");
}

#[test]
fn ingest_makes_an_entry_of_a_line() {
    match ingest("web-1", Read::Line(b"2023 hello\r".to_vec())) {
        Step::Forward(entry) => {
            assert_eq!(entry.pod_name, "web-1");
            assert_eq!(entry.raw_line, "2023 hello");
            assert_eq!(entry.message, "hello");
        }
        _ => panic!("a line is forwarded"),
    }
}

#[test]
fn ingest_replaces_bytes_that_are_no_text() {
    match ingest("web-1", Read::Line(vec![b'a', 0xff, b' ', 0xc3, 0xa9])) {
        Step::Forward(entry) => {
            assert_eq!(entry.raw_line, "a\u{fffd} \u{e9}");
            assert_eq!(entry.message, "\u{e9}");
        }
        _ => panic!("a line is forwarded"),
    }
}

#[test]
fn ingest_reports_an_error_under_the_name_of_the_pod() {
    match ingest("web-1", Read::Failed("broken pipe".to_string())) {
        Step::Report(text) => assert_eq!(text, "Error from pod web-1: broken pipe"),
        _ => panic!("an error is reported"),
    }
    assert!(matches!(ingest("web-1", Read::End), Step::Finish));
}

#[test]
fn ingest_keeps_the_order_of_the_lines() {
    let lines = ["t1 L1", "t2 L2", "t3 L3"];
    let mut seen = Vec::new();
    for line in lines {
        if let Step::Forward(entry) = ingest("a", Read::Line(line.as_bytes().to_vec())) {
            seen.push(entry.message);
        }
    }
    assert_eq!(seen, vec!["L1", "L2", "L3"]);
}

#[test]
fn what_the_reader_does_after_sending() {
    let entry = parse("x y");
    assert_eq!(after_send(&Step::Forward(entry.clone()), true), Next::Read);
    assert_eq!(after_send(&Step::Forward(entry), false), Next::Stop);
    assert_eq!(
        after_send(&Step::Report("e".to_string()), true),
        Next::ReadAfter(500)
    );
    assert_eq!(after_send(&Step::Report("e".to_string()), false), Next::Stop);
    assert_eq!(RETRY_DELAY_MS, 500);
    assert_eq!(after_send(&Step::Finish, true), Next::Stop);
    assert_eq!(after_send(&Step::Finish, false), Next::Stop);
    assert_eq!(QUEUE_CAPACITY, 100);
}
