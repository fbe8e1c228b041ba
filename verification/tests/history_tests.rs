use vibesnap::history::{format_git_date, parse_history, parse_history_line};

#[test]
fn delimiter_in_subject_is_preserved() {
    let rec = parse_history_line("a1b2c3|2023-10-25 10:00:00 +0800|Fix bug|extra").unwrap();
    assert_eq!(rec.short_hash, "a1b2c3".to_string());
    assert_eq!(rec.raw_timestamp, "2023-10-25 10:00:00 +0800".to_string());
    assert_eq!(rec.subject, "Fix bug|extra".to_string());
}

#[test]
fn too_few_fields_yield_nothing() {
    assert!(parse_history_line("justahash").is_none());
    assert!(parse_history_line("hash|2023-10-25 10:00:00 +0800").is_none());
    assert!(parse_history_line("").is_none());
}

#[test]
fn fields_are_trimmed() {
    let rec = parse_history_line("  abc123 | 2023-10-25 10:00:00 +0800 |  subject text  ").unwrap();
    assert_eq!(rec.short_hash, "abc123".to_string());
    assert_eq!(rec.raw_timestamp, "2023-10-25 10:00:00 +0800".to_string());
    assert_eq!(rec.subject, "subject text".to_string());
}

#[test]
fn unparseable_timestamp_is_preserved() {
    assert_eq!(format_git_date("not a date"), "not a date".to_string());
    let rec = parse_history_line("abc|not a date|msg").unwrap();
    assert_eq!(rec.rendered_date, "not a date".to_string());
}

#[test]
fn valid_timestamp_renders_local_date_and_time() {
    let rendered = format_git_date("2023-10-25 10:00:00 +0800");
    // "YYYY-MM-DD HH:MM" in the machine's local time zone.
    assert_eq!(rendered.len(), 16);
    assert_eq!(&rendered[4..5], "-");
    assert_eq!(&rendered[13..14], ":");
}

#[test]
fn listing_skips_blank_and_malformed_lines() {
    let text = "aaa111|2023-10-25 10:00:00 +0800|first\n\nnot a record\nbbb222|2023-10-26 11:30:00 +0000|second|part\n";
    let records = parse_history(text);
    assert_eq!(records.len(), 2);
    assert_eq!(records[0].short_hash, "aaa111".to_string());
    assert_eq!(records[0].subject, "first".to_string());
    assert_eq!(records[1].short_hash, "bbb222".to_string());
    assert_eq!(records[1].subject, "second|part".to_string());
}
