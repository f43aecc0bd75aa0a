use amber::storage::{decode_staging_text, encode_staging_line, StagingLog};
use amber::watchers::{stage_event, CommitData, EventKind, RawEvent};

#[test]
fn staging_append_then_read_round_trip() {
    let mut log = StagingLog::new();
    log.append("2024-05-01", "first entry");
    log.append("2024-05-01", "second entry");
    log.append("2024-05-02", "other day");
    let read = log.read("2024-05-01");
    assert_eq!(read, vec!["first entry".to_string(), "second entry".to_string()]);
    let other = log.read("2024-05-02");
    assert_eq!(other, vec!["other day".to_string()]);
}

#[test]
fn staging_clear_then_read_is_empty() {
    let mut log = StagingLog::new();
    log.append("2024-05-01", "entry");
    assert!(log.contains_day("2024-05-01"));
    log.clear("2024-05-01");
    assert!(!log.contains_day("2024-05-01"));
    assert!(log.read("2024-05-01").is_empty());
}

#[test]
fn staging_read_and_clear_on_unknown_date_do_not_fail() {
    let mut log = StagingLog::new();
    assert!(log.read("1999-01-01").is_empty());
    log.clear("1999-01-01");
    assert!(!log.contains_day("1999-01-01"));
}

#[test]
fn staging_clear_leaves_other_dates_alone() {
    let mut log = StagingLog::new();
    log.append("2024-05-01", "a");
    log.append("2024-05-02", "b");
    log.clear("2024-05-01");
    assert_eq!(log.read("2024-05-02"), vec!["b".to_string()]);
}

#[test]
fn line_codec_round_trip() {
    let entries = vec!["{\"k\":1}".to_string(), "plain text".to_string(), "third".to_string()];
    let mut file_text = String::new();
    for e in &entries {
        file_text.push_str(&encode_staging_line(e));
    }
    assert_eq!(file_text, "{\"k\":1}\nplain text\nthird\n");
    let decoded = decode_staging_text(&file_text);
    assert_eq!(decoded, entries);
}

#[test]
fn staged_event_lines_survive_the_file_round_trip() {
    let mut log = StagingLog::new();
    let event = RawEvent {
        source: "git".to_string(),
        timestamp: "2024-05-01 10:00:00 +0000".to_string(),
        kind: EventKind::Commit,
        data: CommitData {
            repo: "/r/x".to_string(),
            hash: "abc".to_string(),
            subject: "line\none \"and\" two\\three".to_string(),
            author: "alice".to_string(),
        },
    };
    stage_event(&mut log, "2024-05-01", &event);
    stage_event(&mut log, "2024-05-01", &event);
    let lines = log.read("2024-05-01");
    let mut file_text = String::new();
    for l in &lines {
        file_text.push_str(&encode_staging_line(l));
    }
    assert_eq!(decode_staging_text(&file_text), lines);
}

#[test]
fn decode_drops_empty_lines_and_strips_carriage_returns() {
    let decoded = decode_staging_text("a\r\n\n\nb\n\r\nc");
    assert_eq!(decoded, vec!["a".to_string(), "b".to_string(), "c".to_string()]);
    assert!(decode_staging_text("").is_empty());
    assert!(decode_staging_text("\n\n\r\n").is_empty());
}
