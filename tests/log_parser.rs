use lucy::log_parser::{extract_request_id, parse, parse_with_time, strip_ansi_for_parsing};
use lucy::app_state::Timestamp;

#[test]
fn test_strip_ansi_for_parsing() {
    let text = "This is plain text";
    assert_eq!(strip_ansi_for_parsing(text), text);

    let text_with_ansi = "\x1b[31mThis is red text\x1b[0m";
    assert_eq!(strip_ansi_for_parsing(text_with_ansi), "This is red text");

    let complex_ansi = "\x1b[1m\x1b[32mBold green\x1b[0m and \x1b[36mcyan\x1b[0m";
    assert_eq!(strip_ansi_for_parsing(complex_ansi), "Bold green and cyan");
}

#[test]
fn test_extract_request_id() {
    let line = "[abc-123] Some log message";
    assert_eq!(extract_request_id(line), Some("abc-123".to_string()));

    let line_without_id = "Some log message";
    assert_eq!(extract_request_id(line_without_id), None);

    let empty_brackets = "[] Some log message";
    assert_eq!(extract_request_id(empty_brackets), None);

    let whitespace_brackets = "[   ] Some log message";
    assert_eq!(extract_request_id(whitespace_brackets), None);
}

#[test]
fn test_parse() {
    let line = "[req-123] Started GET /test";
    let entry = parse(line).unwrap();
    assert_eq!(entry.request_id, "req-123");
    assert_eq!(entry.message, line);

    let ansi_line = "\x1b[32m[req-456]\x1b[0m Processing data";
    let entry = parse(ansi_line).unwrap();
    assert_eq!(entry.message, ansi_line);

    assert!(parse("").is_none());
    assert!(parse("   ").is_none());

    let no_id_line = "Log message without request ID";
    let entry = parse(no_id_line).unwrap();
    assert_eq!(entry.request_id, "");
    assert_eq!(entry.message, no_id_line);
}

#[test]
fn empty_or_blank_brackets_give_no_request_id() {
    let t = Timestamp { millis: 7 };
    assert_eq!(parse_with_time("[] hello", t).unwrap().request_id, "");
    assert_eq!(parse_with_time("[   ] hello", t).unwrap().request_id, "");
    assert_eq!(parse_with_time("[abc hello", t).unwrap().request_id, "");
}

#[test]
fn request_id_is_found_behind_escapes_and_indentation() {
    let t = Timestamp { millis: 42 };
    let entry = parse_with_time("\x1b[32m[req-456]\x1b[0m Processing data", t).unwrap();
    assert_eq!(entry.request_id, "req-456");
    assert_eq!(entry.timestamp, t);
    let entry = parse_with_time("   [ spaced-id ] x", t).unwrap();
    assert_eq!(entry.request_id, "spaced-id");
    assert_eq!(entry.message, "   [ spaced-id ] x");
    let entry = parse_with_time("x [abc] y", t).unwrap();
    assert_eq!(entry.request_id, "");
}

#[test]
fn incomplete_escapes_are_kept() {
    assert_eq!(strip_ansi_for_parsing("\x1b[12;34Kdone"), "done");
    assert_eq!(strip_ansi_for_parsing("\x1b[12x"), "\x1b[12x");
    assert_eq!(strip_ansi_for_parsing("a\x1b["), "a\x1b[");
    assert_eq!(strip_ansi_for_parsing(""), "");
}
