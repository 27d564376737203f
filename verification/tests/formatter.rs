use tui_logger::ExtLogRecord;
use tui_logger::Level;
use tui_logger::LogFormatter;
use tui_logger::LogStandardFormatter;
use tui_logger::TuiLoggerLevelOutput;

fn formatter_no_ts() -> LogStandardFormatter {
    LogStandardFormatter {
        format_separator: ':',
        format_timestamp: None,
        format_output_level: Some(TuiLoggerLevelOutput::Long),
        format_output_target: true,
        format_output_file: true,
        format_output_line: true,
    }
}

#[test]
fn test_simple() {
    let fmt = formatter_no_ts();
    let rec = ExtLogRecord::new(
        0,
        Level::Info,
        "simple".to_string(),
        Some("tests/simple.rs".to_string()),
        None,
        Some(23),
        "Message".to_string(),
    );
    let lines = fmt.format(40, &rec);
    assert_eq!(lines, vec!["INFO :simple:tests/simple.rs:23:Message".to_string()]);
}

// A long line wraps at the width; continuation lines are indented by
// nine spaces and wrap at width minus the indent.
#[test]
fn test_wrap() {
    let fmt = formatter_no_ts();
    let rec = ExtLogRecord::new(
        0,
        Level::Info,
        "w".to_string(),
        None,
        None,
        None,
        "abcdefghijklmnop".to_string(),
    );
    let lines = fmt.format(10, &rec);
    assert_eq!(
        lines,
        vec![
            "INFO :w:ab".to_string(),
            "         c".to_string(),
            "         d".to_string(),
            "         e".to_string(),
            "         f".to_string(),
            "         g".to_string(),
            "         h".to_string(),
            "         i".to_string(),
            "         j".to_string(),
            "         k".to_string(),
            "         l".to_string(),
            "         m".to_string(),
            "         n".to_string(),
            "         o".to_string(),
            "         p".to_string(),
        ]
    );
}

// A message spanning several lines: the first line is glued to the
// header, the rest start indented.
#[test]
fn test_multiline_message() {
    let fmt = formatter_no_ts();
    let rec = ExtLogRecord::new(
        0,
        Level::Warn,
        "m".to_string(),
        None,
        None,
        None,
        "one\ntwo".to_string(),
    );
    let lines = fmt.format(40, &rec);
    assert_eq!(lines, vec!["WARN :m:one".to_string(), "         two".to_string()]);
}

#[test]
fn test_timestamp_is_millis() {
    let mut fmt = formatter_no_ts();
    fmt.format_timestamp = Some("%H:%M:%S".to_string());
    fmt.format_output_level = None;
    fmt.format_output_target = false;
    let rec = ExtLogRecord::new(
        1234,
        Level::Info,
        "t".to_string(),
        None,
        None,
        None,
        "x".to_string(),
    );
    let lines = fmt.format(40, &rec);
    assert_eq!(lines, vec!["1234:x".to_string()]);
}

#[test]
fn test_abbreviated_level() {
    let mut fmt = formatter_no_ts();
    fmt.format_output_level = Some(TuiLoggerLevelOutput::Abbreviated);
    fmt.format_output_target = false;
    let rec = ExtLogRecord::new(
        0,
        Level::Trace,
        "t".to_string(),
        None,
        None,
        None,
        "x".to_string(),
    );
    let lines = fmt.format(40, &rec);
    assert_eq!(lines, vec!["T:x".to_string()]);
}

#[test]
fn min_width_is_fixed() {
    assert_eq!(formatter_no_ts().min_width(), 13);
}

// An empty message must render without failing, as one line holding
// just the header.
#[test]
fn test_panic_on_empty_log() {
    let fmt = formatter_no_ts();
    let rec = ExtLogRecord::new(
        0,
        Level::Info,
        "empty_log".to_string(),
        None,
        None,
        None,
        String::new(),
    );
    let lines = fmt.format(40, &rec);
    assert_eq!(lines, vec!["INFO :empty_log:".to_string()]);
}
