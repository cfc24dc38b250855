use klogrs::kubernetes::log::LogEntry;
use klogrs::log_processor::filter::GrepFilter;
use klogrs::log_processor::formatter::{FormatError, LogFormatter, PrefixFormat};
use klogrs::log_processor::highlight::Segment;
use klogrs::utils::color::Color;

fn create_test_entry() -> LogEntry {
    LogEntry {
        pod_name: "test-pod".to_string(),
        raw_line: "2023-05-01T12:34:56Z Hello, world!".to_string(),
        message: "Hello, world!".to_string(),
    }
}

fn entry_of(pod: &str, message: &str) -> LogEntry {
    LogEntry {
        pod_name: pod.to_string(),
        raw_line: message.to_string(),
        message: message.to_string(),
    }
}

#[test]
fn test_prefix_format() {
    let entry = create_test_entry();

    let format = PrefixFormat::new("[%n]");
    assert_eq!(format.format(&entry), "[test-pod]");

    let format = PrefixFormat::new("[%s]");
    assert_eq!(format.format(&entry), "[test-pod]");

    let format = PrefixFormat::new("[%t]");
    assert_eq!(format.format(&entry), "[%t]");

    let format = PrefixFormat::new("[%t %n]");
    assert_eq!(format.format(&entry), "[%t test-pod]");
}

#[test]
fn test_formatter_default() {
    let entry = create_test_entry();
    let mut formatter = LogFormatter::new(None, false);

    assert_eq!(
        formatter.format(&entry).unwrap(),
        "[test-pod] Hello, world!"
    );
}

#[test]
fn prefix_format_shortens_long_names() {
    let entry = entry_of("very-long-pod-name", "x");
    assert_eq!(PrefixFormat::new("%s|%n").format(&entry), "very-lon|very-long-pod-name");
    assert_eq!(PrefixFormat::new("%n%n").format(&entry), "very-long-pod-namevery-long-pod-name");
    assert_eq!(PrefixFormat::new("").format(&entry), "");
    assert_eq!(PrefixFormat::new("%").format(&entry), "%");
}

#[test]
fn prefix_format_replaces_in_the_name_too() {
    // the short form is put in after the name, so a name that holds the mark gets it too
    let entry = entry_of("a%sb", "x");
    assert_eq!(PrefixFormat::new("<%n>").format(&entry), "<aa%sbb>");
}

#[test]
fn formatter_without_prefix_gives_the_message() {
    let entry = create_test_entry();
    let mut formatter = LogFormatter::new(Some("[%n]".to_string()), true);
    assert_eq!(formatter.format(&entry).unwrap(), "Hello, world!");
}

#[test]
fn formatter_with_prefix_format() {
    let entry = create_test_entry();
    let mut formatter = LogFormatter::new(Some("<%s>".to_string()), false);
    assert_eq!(formatter.format(&entry).unwrap(), "<test-pod> Hello, world!");
}

#[test]
fn formatter_refuses_a_name_that_cannot_be_cut() {
    // the eighth byte lies inside the two bytes of the last character
    let entry = entry_of("abcdefg\u{e9}", "x");
    let mut formatter = LogFormatter::new(Some("%s".to_string()), false);
    assert_eq!(formatter.format(&entry), Err(FormatError::NameNotCut));
    assert!(formatter.layout(&entry).is_err());
    let mut plain = LogFormatter::new(None, false);
    assert_eq!(plain.format(&entry).unwrap(), "[abcdefg\u{e9}] x");
}

#[test]
fn layout_gives_colours_in_turn_and_keeps_them() {
    let mut formatter = LogFormatter::new(None, false);
    let palette = [
        Color::Red,
        Color::Green,
        Color::Blue,
        Color::Cyan,
        Color::Magenta,
        Color::Yellow,
        Color::White,
    ];
    for i in 0..9 {
        let entry = entry_of(&format!("pod-{}", i), "line");
        let layout = formatter.layout(&entry).unwrap();
        assert_eq!(layout.color, palette[i % 7]);
        assert_eq!(layout.prefix, Some(format!("[pod-{}]", i)));
    }
    let again = formatter.layout(&entry_of("pod-3", "line")).unwrap();
    assert_eq!(again.color, Color::Cyan);
    let next = formatter.layout(&entry_of("pod-9", "line")).unwrap();
    assert_eq!(next.color, Color::Blue);
}

#[test]
fn layout_sets_off_the_merged_matches() {
    let mut formatter = LogFormatter::new(None, true);
    formatter.add_grep_filter(GrepFilter::new("abc").unwrap());
    formatter.add_grep_filter(GrepFilter::new("cde").unwrap());
    formatter.add_grep_filter(GrepFilter::new("xy").unwrap());
    let layout = formatter.layout(&entry_of("p", "abcde--xy-")).unwrap();
    assert_eq!(layout.prefix, None);
    assert_eq!(layout.spans, vec![(0, 5), (7, 9)]);
    assert_eq!(
        layout.segments,
        vec![
            Segment { start: 0, end: 5, highlighted: true },
            Segment { start: 5, end: 7, highlighted: false },
            Segment { start: 7, end: 9, highlighted: true },
            Segment { start: 9, end: 10, highlighted: false },
        ]
    );
}

#[test]
fn layout_without_highlighting_is_one_plain_part() {
    let mut formatter = LogFormatter::new(None, false);
    formatter.add_grep_filter(GrepFilter::new("abc").unwrap());
    formatter.set_highlight(false);
    let layout = formatter.layout(&entry_of("p", "abcde")).unwrap();
    assert_eq!(layout.spans, vec![]);
    assert_eq!(layout.segments, vec![Segment { start: 0, end: 5, highlighted: false }]);
    let empty = formatter.layout(&entry_of("p", "")).unwrap();
    assert_eq!(empty.segments, vec![]);
}
