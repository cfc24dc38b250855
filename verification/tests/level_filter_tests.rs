use klogrs::kubernetes::log::LogEntry;
use klogrs::log_processor::filter::{Filter, FilterError, LevelFilter};

/// Test level filter functionality with different log formats
#[test]
fn test_level_filter_with_different_formats() {
    let warn_filter = LevelFilter::new("WARN").unwrap();

    let error_filter = LevelFilter::new("ERROR").unwrap();

    let entries = vec![
        create_test_entry("[ERROR] Critical error occurred"),
        create_test_entry("[WARN] Warning message"),
        create_test_entry("[INFO] Informational message"),
        create_test_entry("[DEBUG] Debug information"),
        create_test_entry("ERROR: System failure"),
        create_test_entry("WARN: Configuration issue"),
        create_test_entry("INFO: Operation completed"),
        create_test_entry("2023-05-01 ERROR: Database connection lost"),
        create_test_entry("2023-05-01 WARN: Slow query detected"),
        create_test_entry("2023-05-01 INFO: User logged in"),
        create_test_entry("This message has the word ERROR in it"),
        create_test_entry("This message has the word WARNING in it"),
        create_test_entry("This message has the word INFO in it"),
        create_test_entry("No level specified"),
        create_test_entry("Trace[1292960837]: ---\"Objects listed\" error:Get"),
        create_test_entry("No errorenous conditions detected"),
    ];

    let expected_warn = vec![
        false, // [ERROR]
        true,  // [WARN]
        false, // [INFO]
        false, // [DEBUG]
        false, // ERROR:
        true,  // WARN:
        false, // INFO:
        false, // 2023-05-01 ERROR:
        true,  // 2023-05-01 WARN:
        false, // 2023-05-01 INFO:
        false, // Message containing ERROR
        true,  // Message containing WARNING
        false, // Message containing INFO
        false, // No level
        false, // Trace[...] with error
        false, // errorenous
    ];

    let expected_error = vec![
        true,  // [ERROR]
        false, // [WARN]
        false, // [INFO]
        false, // [DEBUG]
        true,  // ERROR:
        false, // WARN:
        false, // INFO:
        true,  // 2023-05-01 ERROR:
        false, // 2023-05-01 WARN:
        false, // 2023-05-01 INFO:
        true,  // Message containing ERROR
        false, // Message containing WARNING
        false, // Message containing INFO
        false, // No level
        false, // Trace[...] with error
        false, // errorenous
    ];

    for (i, entry) in entries.iter().enumerate() {
        assert_eq!(
            warn_filter.apply(entry),
            expected_warn[i],
            "Failed on WARN filter entry: {}",
            entry.message
        );
    }

    for (i, entry) in entries.iter().enumerate() {
        assert_eq!(
            error_filter.apply(entry),
            expected_error[i],
            "Failed on ERROR filter entry: {}",
            entry.message
        );
    }
}

/// Helper function to create a test log entry
fn create_test_entry(message: &str) -> LogEntry {
    LogEntry {
        pod_name: "test-pod".to_string(),
        raw_line: message.to_string(),
        message: message.to_string(),
    }
}

#[test]
fn level_names_are_taken_without_regard_to_case() {
    for name in ["warn", "Warn", "WARN", "wArNiNg"] {
        let filter = LevelFilter::new(name).unwrap();
        assert!(filter.apply(&create_test_entry("[WARN] disk nearly full")));
        assert!(filter.apply(&create_test_entry("warning: disk nearly full")));
        assert!(!filter.apply(&create_test_entry("[ERROR] disk full")));
    }
    assert_eq!(LevelFilter::new("warn").unwrap().level(), "WARN");
    assert_eq!(LevelFilter::new("warn").unwrap().description(), "level(WARN)");
    assert_eq!(LevelFilter::new("Warning").unwrap().description(), "level(WARNING)");
}

#[test]
fn every_level_name_is_accepted() {
    for name in [
        "TRACE", "DEBUG", "INFO", "WARN", "WARNING", "ERROR", "ERR", "FATAL", "CRITICAL",
    ] {
        let filter = LevelFilter::new(name).unwrap();
        assert!(filter.apply(&create_test_entry(&format!("[{}] something", name))));
        assert!(filter.apply(&create_test_entry(&format!("{}: something", name.to_lowercase()))));
        assert!(!filter.apply(&create_test_entry("nothing of the kind")));
    }
}

#[test]
fn a_text_that_names_no_level_is_refused() {
    assert_eq!(
        LevelFilter::new("BOGUS").err(),
        Some(FilterError::InvalidLevel("BOGUS".to_string()))
    );
    assert_eq!(
        LevelFilter::new("").err(),
        Some(FilterError::InvalidLevel("".to_string()))
    );
    assert_eq!(
        LevelFilter::new(" info").err(),
        Some(FilterError::InvalidLevel(" info".to_string()))
    );
    assert_eq!(
        LevelFilter::new("BOGUS").err().unwrap().message(),
        "Invalid log level: BOGUS"
    );
    assert_eq!(
        FilterError::InvalidPattern("(".to_string()).message(),
        "Invalid grep pattern: ("
    );
}

#[test]
fn from_upper_goes_by_the_upper_case_form() {
    assert!(LevelFilter::from_upper("info", "INFO".to_string()).is_ok());
    assert_eq!(
        LevelFilter::from_upper("info", "info".to_string()).err(),
        Some(FilterError::InvalidLevel("info".to_string()))
    );
}

#[test]
fn the_exclusion_rule_holds_for_errors_only() {
    let error_filter = LevelFilter::new("ERROR").unwrap();
    assert!(!error_filter.apply(&create_test_entry(
        "Trace[1292960837]: ---\"Objects listed\" error:Get"
    )));
    assert!(error_filter.should_exclude("Trace[1]: error: ERROR: boom"));
    assert!(!error_filter.apply(&create_test_entry("Trace[1]: error: ERROR: boom")));
    assert!(error_filter.apply(&create_test_entry("[ERROR] disk full")));
    assert!(!error_filter.apply(&create_test_entry("No errorenous conditions detected")));
    assert!(!error_filter.should_exclude("Trace[1]: ERROR: boom"));
    assert!(!error_filter.should_exclude("error: ERROR: boom"));
    let err_filter = LevelFilter::new("ERR").unwrap();
    assert!(!err_filter.should_exclude("Trace[1]: error: ERR: boom"));
    assert!(err_filter.apply(&create_test_entry("Trace[1]: error: ERR: boom")));
}
