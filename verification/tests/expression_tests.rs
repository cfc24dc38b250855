use klogrs::kubernetes::log::LogEntry;
use klogrs::log_processor::expression::{
    build_filter, level_expr_filter, pattern_expr_filter, pattern_filters,
};
use klogrs::log_processor::filter::{AnyFilter, Filter, FilterError};

fn entry(line: &str) -> LogEntry {
    LogEntry {
        pod_name: "p".to_string(),
        raw_line: line.to_string(),
        message: line.to_string(),
    }
}

fn describe(pattern: Option<&str>, level: Option<&str>) -> Option<String> {
    build_filter(pattern, level).unwrap().map(|f| f.description())
}

#[test]
fn ampersand_makes_a_conjunction_of_patterns() {
    let filter = build_filter(Some("err&warn"), None).unwrap().unwrap();
    assert!(matches!(filter, AnyFilter::And(_)));
    assert_eq!(filter.description(), "(grep(\"err\") AND grep(\"warn\"))");
    assert!(filter.apply(&entry("warn: err")));
    assert!(!filter.apply(&entry("err only")));
    assert!(!filter.apply(&entry("warn only")));
}

#[test]
fn comma_makes_a_disjunction_of_patterns() {
    let filter = build_filter(Some("err,warn"), None).unwrap().unwrap();
    assert!(matches!(filter, AnyFilter::Or(_)));
    assert_eq!(filter.description(), "(grep(\"err\") OR grep(\"warn\"))");
    assert!(filter.apply(&entry("err only")));
    assert!(filter.apply(&entry("warn only")));
    assert!(!filter.apply(&entry("neither")));
}

#[test]
fn pattern_and_level_make_a_conjunction_of_both() {
    let filter = build_filter(Some("disk,net"), Some("error,warn")).unwrap().unwrap();
    assert!(matches!(filter, AnyFilter::And(_)));
    assert_eq!(
        filter.description(),
        "((grep(\"disk\") OR grep(\"net\")) AND (level(ERROR) OR level(WARN)))"
    );
    assert!(filter.apply(&entry("[ERROR] disk full")));
    assert!(filter.apply(&entry("WARN: net down")));
    assert!(!filter.apply(&entry("[INFO] disk fine")));
    assert!(!filter.apply(&entry("[ERROR] cpu hot")));
}

#[test]
fn a_single_pattern_is_still_combined() {
    assert_eq!(describe(Some("err"), None), Some("(grep(\"err\"))".to_string()));
    assert_eq!(describe(Some("err&"), None), Some("(grep(\"err\"))".to_string()));
    assert_eq!(describe(None, Some("info")), Some("(level(INFO))".to_string()));
}

#[test]
fn a_comma_beside_an_ampersand_is_part_of_the_pattern() {
    assert_eq!(
        describe(Some("a,b&c"), None),
        Some("(grep(\"a,b\") AND grep(\"c\"))".to_string())
    );
}

#[test]
fn fragments_are_trimmed_and_empty_ones_skipped() {
    assert_eq!(
        describe(Some("  err , ,warn,, \t"), None),
        Some("(grep(\"err\") OR grep(\"warn\"))".to_string())
    );
    assert_eq!(
        describe(Some(" a b & c "), None),
        Some("(grep(\"a b\") AND grep(\"c\"))".to_string())
    );
    assert_eq!(
        describe(None, Some(" info ,\u{a0}debug\u{2003}")),
        Some("(level(INFO) OR level(DEBUG))".to_string())
    );
}

#[test]
fn an_expression_of_empty_fragments_adds_no_filter() {
    assert!(build_filter(None, None).unwrap().is_none());
    assert!(build_filter(Some(""), None).unwrap().is_none());
    assert!(build_filter(Some(" , ,"), Some(",")).unwrap().is_none());
    assert!(build_filter(Some("&&"), Some("  ")).unwrap().is_none());
    assert!(pattern_expr_filter(" ").is_none());
    assert!(level_expr_filter(",").unwrap().is_none());
    assert_eq!(describe(Some(","), Some("info")), Some("(level(INFO))".to_string()));
    assert_eq!(describe(Some("x"), Some(",")), Some("(grep(\"x\"))".to_string()));
}

#[test]
fn an_invalid_level_aborts_the_whole() {
    assert_eq!(
        build_filter(Some("err"), Some("info, bogus ,nope")).err(),
        Some(FilterError::InvalidLevel("bogus".to_string()))
    );
    assert_eq!(
        build_filter(None, Some("bogus")).err().unwrap().message(),
        "Invalid log level: bogus"
    );
    assert_eq!(
        level_expr_filter("warn,x").err(),
        Some(FilterError::InvalidLevel("x".to_string()))
    );
}

#[test]
fn an_invalid_pattern_is_taken_literally() {
    let filter = build_filter(Some("(,["), None).unwrap().unwrap();
    assert_eq!(filter.description(), "(grep(\"(\") OR grep(\"[\"))");
    assert!(filter.apply(&entry("f(x)")));
    assert!(filter.apply(&entry("a[0]")));
    assert!(!filter.apply(&entry("plain")));
}

#[test]
fn the_patterns_to_set_off_are_those_of_the_expression() {
    let patterns: Vec<String> = pattern_filters(" err ,warn,")
        .iter()
        .map(|f| f.pattern().to_string())
        .collect();
    assert_eq!(patterns, vec!["err", "warn"]);
    let joined: Vec<String> = pattern_filters("a,b&c")
        .iter()
        .map(|f| f.pattern().to_string())
        .collect();
    assert_eq!(joined, vec!["a,b", "c"]);
    assert!(pattern_filters("").is_empty());
}
