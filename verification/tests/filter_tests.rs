use klogrs::kubernetes::log::LogEntry;
use klogrs::log_processor::filter::{
    AndFilter, AnyFilter, Filter, GrepFilter, LevelFilter, OrFilter, PatternKind,
};

fn create_test_entry(message: &str) -> LogEntry {
    LogEntry {
        pod_name: "test-pod".to_string(),
        raw_line: message.to_string(),
        message: message.to_string(),
    }
}

#[test]
fn test_grep_filter() {
    let filter = GrepFilter::new("ERROR").unwrap();

    assert!(filter.apply(&create_test_entry("This is an ERROR message")));
    assert!(!filter.apply(&create_test_entry("This is a normal message")));
}

#[test]
fn test_level_filter() {
    let filter = LevelFilter::new("ERROR").unwrap();

    assert!(filter.apply(&create_test_entry("[ERROR] This is an error")));
    assert!(filter.apply(&create_test_entry("ERROR: This is an error message")));
    assert!(!filter.apply(&create_test_entry("[INFO] This is info")));
    assert!(!filter.apply(&create_test_entry("[DEBUG] This is debug")));

    // Test logs with no recognizable level - should be excluded
    assert!(!filter.apply(&create_test_entry("This log has no level")));

    // Test with different case
    assert!(filter.apply(&create_test_entry("[error] This is an error message")));

    // Test with word "error" in the middle of text - should match if it's a whole word
    assert!(filter.apply(&create_test_entry("This is an error message")));

    // Test with "error" as part of another word - should not match
    assert!(!filter.apply(&create_test_entry("No errorenous conditions detected")));

    // Test with "error" in a trace message - should not match if not a level indicator
    let trace_message = "Trace[1292960837]: ---\"Objects listed\" error:Get";
    assert!(!filter.apply(&create_test_entry(trace_message)));
}

#[test]
fn test_and_filter() {
    let grep1 = AnyFilter::Grep(GrepFilter::new("important").unwrap());
    let grep2 = AnyFilter::Grep(GrepFilter::new("ERROR").unwrap());

    let and_filter = AndFilter::new(vec![grep1, grep2]);

    assert!(and_filter.apply(&create_test_entry("This is an important ERROR message")));
    assert!(!and_filter.apply(&create_test_entry("This is an important message")));
    assert!(!and_filter.apply(&create_test_entry("This is an ERROR message")));
}

#[test]
fn test_or_filter() {
    let grep1 = AnyFilter::Grep(GrepFilter::new("important").unwrap());
    let grep2 = AnyFilter::Grep(GrepFilter::new("ERROR").unwrap());

    let or_filter = OrFilter::new(vec![grep1, grep2]);

    assert!(or_filter.apply(&create_test_entry("This is an important ERROR message")));
    assert!(or_filter.apply(&create_test_entry("This is an important message")));
    assert!(or_filter.apply(&create_test_entry("This is an ERROR message")));
    assert!(!or_filter.apply(&create_test_entry("This is a normal message")));
}

#[test]
fn test_numeric_grep_filter() {
    let filter = GrepFilter::new("123").unwrap();

    assert!(filter.apply(&create_test_entry("Log with number 123")));
    assert!(filter.apply(&create_test_entry("Log with number 1234")));
    assert!(!filter.apply(&create_test_entry("Log with number 456")));
}

#[test]
fn an_invalid_pattern_still_makes_a_filter() {
    let filter = GrepFilter::new("(").unwrap();
    assert_eq!(filter.pattern(), "(");
    assert_eq!(filter.kind(), PatternKind::Escaped);
    assert!(filter.apply(&create_test_entry("f(x)")));
    assert!(filter.apply(&create_test_entry("(")));
    assert!(!filter.apply(&create_test_entry("fx")));
    assert_eq!(filter.find_matches("a(b(c"), vec![(1, 2), (3, 4)]);
    assert_eq!(GrepFilter::new("a.c").unwrap().kind(), PatternKind::Regex);
    for pattern in ["[", "*", "a{", "\\", "(?P<", "a**", ")", "\u{0}(", ""] {
        assert!(GrepFilter::new(pattern).is_ok());
    }
    let star = GrepFilter::new("*").unwrap();
    assert!(star.apply(&create_test_entry("a*b")));
    assert!(!star.apply(&create_test_entry("ab")));
}

#[test]
fn a_pattern_is_a_regular_expression() {
    let filter = GrepFilter::new("a.c|x+").unwrap();
    assert!(filter.apply(&create_test_entry("abc")));
    assert!(filter.apply(&create_test_entry("--xx--")));
    assert!(!filter.apply(&create_test_entry("ac")));
    assert!(filter.is_match("a-c"));
    assert_eq!(filter.description(), "grep(\"a.c|x+\")");
}

#[test]
fn the_raw_line_is_matched_and_not_the_message() {
    let entry = LogEntry {
        pod_name: "p".to_string(),
        raw_line: "2023-05-01 hello".to_string(),
        message: "hello".to_string(),
    };
    assert!(GrepFilter::new("2023").unwrap().apply(&entry));
    let other = LogEntry {
        pod_name: "p".to_string(),
        raw_line: "hello".to_string(),
        message: "2023".to_string(),
    };
    assert!(!GrepFilter::new("2023").unwrap().apply(&other));
}

#[test]
fn matches_are_byte_offsets_in_order() {
    let filter = GrepFilter::new("é+").unwrap();
    assert_eq!(filter.find_matches("aéé b é"), vec![(1, 5), (8, 10)]);
    assert_eq!(filter.find_matches("none"), vec![]);
    let empty = GrepFilter::new("").unwrap();
    assert_eq!(empty.find_matches("ab"), vec![(0, 0), (1, 1), (2, 2)]);
}

#[test]
fn a_cloned_filter_matches_the_same() {
    let filter = GrepFilter::new("a+b").unwrap();
    let copy = filter.clone();
    assert_eq!(copy.pattern(), "a+b");
    assert_eq!(copy.kind(), filter.kind());
    assert!(copy.apply(&create_test_entry("caab")));
    assert!(!copy.apply(&create_test_entry("a+b")));
    let literal = GrepFilter::new("a(").unwrap().clone();
    assert!(literal.apply(&create_test_entry("fa(x)")));
}

#[test]
fn composites_of_two_filters() {
    let foo = || AnyFilter::Grep(GrepFilter::new("foo").unwrap());
    let bar = || AnyFilter::Grep(GrepFilter::new("bar").unwrap());
    let and = AndFilter::new(vec![foo(), bar()]);
    let or = OrFilter::new(vec![foo(), bar()]);
    for (line, both, either) in [
        ("foo bar", true, true),
        ("bar foo", true, true),
        ("foo", false, true),
        ("bar", false, true),
        ("baz", false, false),
    ] {
        assert_eq!(and.apply(&create_test_entry(line)), both);
        assert_eq!(or.apply(&create_test_entry(line)), either);
    }
    assert_eq!(and.description(), "(grep(\"foo\") AND grep(\"bar\"))");
    assert_eq!(or.description(), "(grep(\"foo\") OR grep(\"bar\"))");
}

#[test]
fn composites_without_filters() {
    assert!(AndFilter::new(vec![]).apply(&create_test_entry("anything")));
    assert!(!OrFilter::new(vec![]).apply(&create_test_entry("anything")));
    assert_eq!(AndFilter::new(vec![]).description(), "()");
    assert_eq!(OrFilter::new(vec![]).description(), "()");
}

#[test]
fn composites_nest() {
    let grep = |p: &str| AnyFilter::Grep(GrepFilter::new(p).unwrap());
    let level = |l: &str| AnyFilter::Level(LevelFilter::new(l).unwrap());
    let tree = AnyFilter::And(AndFilter::new(vec![
        AnyFilter::Or(OrFilter::new(vec![grep("disk"), grep("net")])),
        AnyFilter::Or(OrFilter::new(vec![level("error"), level("fatal")])),
    ]));
    assert_eq!(
        tree.description(),
        "((grep(\"disk\") OR grep(\"net\")) AND (level(ERROR) OR level(FATAL)))"
    );
    assert!(tree.apply(&create_test_entry("FATAL: net unreachable")));
    assert!(!tree.apply(&create_test_entry("INFO: net reachable")));
    assert!(!tree.apply(&create_test_entry("FATAL: out of memory")));
}
