use amber::error::AmberError;
use amber::storage::{NoteStore, StagingLog};
use amber::summarizer::daily::build_messages;
use amber::summarizer::provider::{LlmProvider, Message};
use amber::summarizer::summarize_day;
use amber::watchers::{stage_event, CommitData, EventKind, RawEvent};

/// Echoes `len=<N>` where N is the character length of the joined event
/// text handed to it in the user turn.
struct EchoLen {
    date: String,
}

impl LlmProvider for EchoLen {
    fn complete(&self, messages: Vec<Message>) -> Result<String, AmberError> {
        assert_eq!(messages.len(), 2);
        assert_eq!(messages[0].role, "system");
        assert_eq!(messages[1].role, "user");
        let prefix = format!("Here are the raw events for {}:\n\n", self.date);
        let body = messages[1]
            .content
            .strip_prefix(&prefix)
            .expect("user turn must start with the fixed lead-in");
        Ok(format!("len={}", body.chars().count()))
    }
}

/// Always fails, as a provider with a missing credential would.
struct NoProvider;

impl LlmProvider for NoProvider {
    fn complete(&self, _messages: Vec<Message>) -> Result<String, AmberError> {
        Err(AmberError::Provider("Missing env var: OPENAI_API_KEY".to_string()))
    }
}

fn commit_event(hash: &str, subject: &str) -> RawEvent {
    RawEvent {
        source: "git".to_string(),
        timestamp: "2024-05-01 10:00:00 +0000".to_string(),
        kind: EventKind::Commit,
        data: CommitData {
            repo: "/r/x".to_string(),
            hash: hash.to_string(),
            subject: subject.to_string(),
            author: "alice".to_string(),
        },
    }
}

#[test]
fn end_to_end_two_commit_events_summarized() {
    let date = "2024-05-01";
    let mut staging = StagingLog::new();
    let mut notes = NoteStore::new();

    let e1 = commit_event("abc123", "add parser");
    let e2 = commit_event("def456", "fix tests");
    stage_event(&mut staging, date, &e1);
    stage_event(&mut staging, date, &e2);

    let lines = staging.read(date);
    assert_eq!(lines.len(), 2);
    // Each staged line is valid JSON carrying the commit event.
    let v: serde_json::Value = serde_json::from_str(&lines[0]).unwrap();
    assert_eq!(v["source"], "git");
    assert_eq!(v["kind"], "Commit");
    assert_eq!(v["data"]["hash"], "abc123");
    assert_eq!(v["data"]["subject"], "add parser");
    assert_eq!(v["data"]["repo"], "/r/x");

    let joined = format!("{}\n{}", lines[0], lines[1]);
    let expected = format!("len={}", joined.chars().count());

    let provider = EchoLen { date: date.to_string() };
    let r = summarize_day(date, &mut staging, &mut notes, &provider);
    assert!(r.is_ok());
    assert_eq!(notes.read_note(date), Some(expected.clone()));
    // The staging file for the date is gone, not merely empty.
    assert!(!staging.contains_day(date));
    assert!(staging.read(date).is_empty());

    // Summarizing again without new events succeeds and leaves the note
    // untouched: empty staging means nothing to do.
    let r2 = summarize_day(date, &mut staging, &mut notes, &provider);
    assert!(r2.is_ok());
    assert_eq!(notes.read_note(date), Some(expected));
}

#[test]
fn summarize_with_nothing_staged_is_a_successful_no_op() {
    let mut staging = StagingLog::new();
    let mut notes = NoteStore::new();
    let provider = NoProvider;
    let r = summarize_day("2024-05-01", &mut staging, &mut notes, &provider);
    assert!(r.is_ok());
    assert_eq!(notes.read_note("2024-05-01"), None);
}

#[test]
fn provider_failure_preserves_staging_for_retry() {
    let date = "2024-05-01";
    let mut staging = StagingLog::new();
    let mut notes = NoteStore::new();
    stage_event(&mut staging, date, &commit_event("abc", "work"));
    let before = staging.read(date);

    let r = summarize_day(date, &mut staging, &mut notes, &NoProvider);
    assert!(r.is_err());
    assert_eq!(staging.read(date), before);
    assert_eq!(notes.read_note(date), None);

    // A later attempt with a working provider succeeds on the same data.
    let provider = EchoLen { date: date.to_string() };
    assert!(summarize_day(date, &mut staging, &mut notes, &provider).is_ok());
    assert!(!staging.contains_day(date));
    assert!(notes.read_note(date).is_some());
}

#[test]
fn json_lines_escape_and_round_trip_through_a_parser() {
    let tricky = commit_event("h\"x", "multi\nline \\ sub\tject\r");
    let line = tricky.to_json_line();
    assert!(!line.contains('\n'));
    let v: serde_json::Value = serde_json::from_str(&line).unwrap();
    assert_eq!(v["data"]["hash"], "h\"x");
    assert_eq!(v["data"]["subject"], "multi\nline \\ sub\tject\r");
    // Control characters take the \u00XX form.
    let ctl = commit_event("h", "bell\u{0007}end");
    let cline = ctl.to_json_line();
    assert!(cline.contains("\\u0007"));
    let cv: serde_json::Value = serde_json::from_str(&cline).unwrap();
    assert_eq!(cv["data"]["subject"], "bell\u{0007}end");
}

#[test]
fn conversation_carries_date_and_joined_events() {
    let events = vec!["one".to_string(), "two".to_string()];
    let msgs = build_messages("2024-05-01", &events);
    assert_eq!(msgs.len(), 2);
    assert_eq!(msgs[0].role, "system");
    assert!(msgs[0].content.contains("daily development note for 2024-05-01"));
    assert!(msgs[0].content.contains("- Shipped: completed features/fixes"));
    assert_eq!(msgs[1].role, "user");
    assert_eq!(msgs[1].content, "Here are the raw events for 2024-05-01:\n\none\ntwo");
}

#[test]
fn message_constructors_tag_roles() {
    let s = Message::system("instruction".to_string());
    assert_eq!(s.role, "system");
    assert_eq!(s.content, "instruction");
    let u = Message::user("question".to_string());
    assert_eq!(u.role, "user");
    assert_eq!(u.content, "question");
}
