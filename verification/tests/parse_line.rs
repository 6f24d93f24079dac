use logcat_parser::display::DisplayCategory;
use logcat_parser::parser::{
    fields_from_bracketed, fields_from_complex, fields_from_simple, match_shape, parse_log_line,
};
use logcat_parser::pattern::PatternTable;
use logcat_parser::record::{LineFields, LogRecord};

fn table() -> PatternTable {
    PatternTable::new().expect("the standard patterns compile")
}

fn record(
    timestamp: &str,
    level: &str,
    pid: &str,
    tid: &str,
    tag: &str,
    message: &str,
    display: DisplayCategory,
) -> LogRecord {
    LogRecord {
        timestamp: timestamp.to_string(),
        level: level.to_string(),
        pid: pid.to_string(),
        tid: tid.to_string(),
        tag: tag.to_string(),
        message: message.to_string(),
        display,
    }
}

fn groups(texts: &[Option<&str>]) -> Vec<Option<String>> {
    texts.iter().map(|t| t.map(|s| s.to_string())).collect()
}

#[test]
fn simple_thread_time_line() {
    let r = parse_log_line(&table(), "01-15 10:23:45.123 1234 - - MyTag: Hello world");
    assert_eq!(
        r,
        Some(record(
            "01-15 10:23:45.123",
            "-",
            "1234",
            "-",
            "MyTag",
            "Hello world",
            DisplayCategory::Main
        ))
    );
    assert_eq!(r.unwrap().display.label(), "Main");
}

#[test]
fn complex_thread_time_line() {
    let r = parse_log_line(
        &table(),
        "01-15 10:23:45.123 D - - 1234 5678 D MyTag: displayId: 1 something",
    );
    assert_eq!(
        r,
        Some(record(
            "01-15 10:23:45.123",
            "D",
            "1234",
            "5678",
            "MyTag",
            "displayId: 1 something",
            DisplayCategory::Cluster
        ))
    );
}

#[test]
fn complex_line_uses_second_level() {
    let r = parse_log_line(&table(), "01-15 10:23:45.123 D - - 12 34 E Tag: boom").unwrap();
    assert_eq!(r.level, "E");
    assert_eq!(r.pid, "12");
    assert_eq!(r.tid, "34");
}

#[test]
fn bracketed_line() {
    let r = parse_log_line(&table(), "01-15 10:23:45.123 D/ClusterService( 1234  5678) started");
    assert_eq!(
        r,
        Some(record(
            "01-15 10:23:45.123",
            "D",
            "1234",
            "5678",
            "ClusterService",
            "started",
            DisplayCategory::Cluster
        ))
    );
    assert_eq!(r.unwrap().display.label(), "Cluster");
}

#[test]
fn bracketed_line_with_single_id() {
    let r = parse_log_line(&table(), "01-15 10:23:45.123 I/Audio( 77) playing").unwrap();
    assert_eq!(r.level, "I");
    assert_eq!(r.tag, "Audio");
    assert_eq!(r.pid, "77");
    assert_eq!(r.tid, "-");
    assert_eq!(r.message, "playing");
}

#[test]
fn bracketed_line_with_empty_parentheses() {
    let r = parse_log_line(&table(), "01-15 10:23:45.123 W/Net(   ) down").unwrap();
    assert_eq!(r.pid, "-");
    assert_eq!(r.tid, "-");
    assert_eq!(r.message, "down");
}

#[test]
fn bracketed_line_with_three_ids_keeps_two() {
    let r = parse_log_line(&table(), "01-15 10:23:45.123 E/Sys(1 2 3) x").unwrap();
    assert_eq!(r.pid, "1");
    assert_eq!(r.tid, "2");
}

#[test]
fn empty_line_gives_none() {
    assert_eq!(parse_log_line(&table(), ""), None);
}

#[test]
fn whitespace_line_gives_none() {
    assert_eq!(parse_log_line(&table(), "   \t \r\n"), None);
    assert_eq!(parse_log_line(&table(), "\u{3000}\u{a0}"), None);
}

#[test]
fn line_without_timestamp_gives_none() {
    assert_eq!(parse_log_line(&table(), "MyTag: no timestamp here"), None);
}

#[test]
fn timestamp_with_garbage_remainder_gives_none() {
    assert_eq!(parse_log_line(&table(), "01-15 10:23:45.123 complete garbage"), None);
    assert_eq!(parse_log_line(&table(), "01-15 10:23:45.123"), None);
}

#[test]
fn text_before_timestamp_is_skipped() {
    let r = parse_log_line(&table(), "[kernel] 01-15 10:23:45.123 9 - - T: m").unwrap();
    assert_eq!(r.timestamp, "01-15 10:23:45.123");
    assert_eq!(r.pid, "9");
    assert_eq!(r.tag, "T");
    assert_eq!(r.message, "m");
}

#[test]
fn outer_whitespace_is_ignored() {
    let t = table();
    let plain = parse_log_line(&t, "01-15 10:23:45.123 1234 - - MyTag: Hello world");
    let padded = parse_log_line(&t, "  \t01-15 10:23:45.123 1234 - - MyTag: Hello world \r\n");
    assert!(plain.is_some());
    assert_eq!(plain, padded);
}

#[test]
fn tag_and_message_are_trimmed() {
    let r = parse_log_line(&table(), "01-15 10:23:45.123 1 - -   Spaced Tag  :    padded text   ")
        .unwrap();
    assert_eq!(r.tag, "Spaced Tag");
    assert_eq!(r.message, "padded text");
}

#[test]
fn parsing_twice_gives_the_same_record() {
    let t = table();
    let line = "01-15 10:23:45.123 D - - 1234 5678 D MyTag: displayId: 1 something";
    assert_eq!(parse_log_line(&t, line), parse_log_line(&t, line));
    let other = table();
    assert_eq!(parse_log_line(&t, line), parse_log_line(&other, line));
}

#[test]
fn digit_groups_are_not_validated() {
    let r = parse_log_line(&table(), "99-99 99:99:99.999 00000000000000000000000 - - T: m").unwrap();
    assert_eq!(r.timestamp, "99-99 99:99:99.999");
    assert_eq!(r.pid, "00000000000000000000000");
}

#[test]
fn simple_shape_needs_space_after_colon() {
    assert_eq!(parse_log_line(&table(), "01-15 10:23:45.123 1234 - - MyTag:Hello"), None);
}

#[test]
fn simple_fields_come_from_groups() {
    let g = groups(&[Some("12 - - T: m"), Some("12"), Some(" T "), Some("m  ")]);
    assert_eq!(
        fields_from_simple("ts", &g),
        Some(LineFields {
            timestamp: "ts".to_string(),
            level: "-".to_string(),
            pid: "12".to_string(),
            tid: "-".to_string(),
            tag: "T".to_string(),
            message: "m".to_string(),
        })
    );
}

#[test]
fn simple_fields_need_every_group() {
    assert_eq!(fields_from_simple("ts", &groups(&[Some("x"), Some("12"), None, Some("m")])), None);
    assert_eq!(fields_from_simple("ts", &groups(&[Some("x"), Some("12"), Some("T")])), None);
    assert_eq!(fields_from_simple("ts", &groups(&[])), None);
}

#[test]
fn complex_fields_come_from_groups() {
    let g = groups(&[
        Some("all"),
        Some("V"),
        Some("10"),
        Some("20"),
        Some("E"),
        Some("Tag "),
        Some(" msg"),
    ]);
    let f = fields_from_complex("ts", &g).unwrap();
    assert_eq!(f.level, "E");
    assert_eq!(f.pid, "10");
    assert_eq!(f.tid, "20");
    assert_eq!(f.tag, "Tag");
    assert_eq!(f.message, "msg");
    assert_eq!(fields_from_complex("ts", &groups(&[Some("a"), Some("V"), Some("1")])), None);
}

#[test]
fn bracketed_fields_split_the_ids() {
    let g = groups(&[Some("all"), Some("D"), Some("Tag"), Some(" 1\t2 "), Some("msg")]);
    let f = fields_from_bracketed("ts", &g).unwrap();
    assert_eq!(f.level, "D");
    assert_eq!(f.pid, "1");
    assert_eq!(f.tid, "2");
    let g = groups(&[Some("all"), Some("D"), Some("Tag"), Some(""), Some("msg")]);
    let f = fields_from_bracketed("ts", &g).unwrap();
    assert_eq!(f.pid, "-");
    assert_eq!(f.tid, "-");
    assert_eq!(fields_from_bracketed("ts", &groups(&[Some("all"), Some("D"), None])), None);
}

#[test]
fn shapes_are_tried_in_order() {
    let t = table();
    let f = match_shape(&t, "ts", "1234 - - D/Tag(1 2): text").unwrap();
    assert_eq!(f.level, "-");
    assert_eq!(f.pid, "1234");
    assert_eq!(f.tag, "D/Tag(1 2)");
    assert_eq!(f.message, "text");
    assert_eq!(match_shape(&t, "ts", "nothing of the kind"), None);
}
