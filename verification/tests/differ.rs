use amber::config::GitSourceConfig;
use amber::watchers::git::{changed_repos, parse_commit_line, repo_from_event_path, GitWatcher};
use amber::watchers::EventKind;

fn test_config() -> GitSourceConfig {
    GitSourceConfig { watch_paths: vec!["/r".to_string()], scan_depth: 3, enabled: true }
}

const LOG_THREE: &str = "h3|subj three|alice|2024-05-01 10:00:00 +0000\n\
h2|subj two|bob|2024-05-01 09:00:00 +0000\n\
h1|subj one|alice|2024-05-01 08:00:00 +0000\n";

#[test]
fn differ_without_cursor_emits_all_newest_first_and_sets_cursor() {
    let mut w = GitWatcher::new(test_config());
    let events = w.process_repo("/r/x", LOG_THREE);
    assert_eq!(events.len(), 3);
    assert_eq!(events[0].data.hash, "h3");
    assert_eq!(events[1].data.hash, "h2");
    assert_eq!(events[2].data.hash, "h1");
    assert_eq!(events[0].source, "git");
    assert!(matches!(events[0].kind, EventKind::Commit));
    assert_eq!(events[0].data.repo, "/r/x");
    assert_eq!(events[0].data.subject, "subj three");
    assert_eq!(events[0].data.author, "alice");
    assert_eq!(events[0].timestamp, "2024-05-01 10:00:00 +0000");
    assert_eq!(w.cursors.get("/r/x"), Some(&"h3".to_string()));
}

#[test]
fn differ_second_run_with_no_new_commits_emits_nothing() {
    let mut w = GitWatcher::new(test_config());
    let first = w.process_repo("/r/x", LOG_THREE);
    assert_eq!(first.len(), 3);
    let second = w.process_repo("/r/x", LOG_THREE);
    assert!(second.is_empty());
    assert_eq!(w.cursors.get("/r/x"), Some(&"h3".to_string()));
}

#[test]
fn differ_emits_only_commits_ahead_of_cursor() {
    let mut w = GitWatcher::new(test_config());
    w.process_repo("/r/x", LOG_THREE);
    let grown = "h5|five|carol|t5\nh4|four|carol|t4\nh3|subj three|alice|t3\nh2|subj two|bob|t2\n";
    let events = w.process_repo("/r/x", grown);
    assert_eq!(events.len(), 2);
    assert_eq!(events[0].data.hash, "h5");
    assert_eq!(events[1].data.hash, "h4");
    assert_eq!(w.cursors.get("/r/x"), Some(&"h5".to_string()));
}

#[test]
fn differ_keeps_separate_cursors_per_repository() {
    let mut w = GitWatcher::new(test_config());
    w.process_repo("/r/x", LOG_THREE);
    let events = w.process_repo("/r/y", "k1|other|dave|t\n");
    assert_eq!(events.len(), 1);
    assert_eq!(w.cursors.get("/r/x"), Some(&"h3".to_string()));
    assert_eq!(w.cursors.get("/r/y"), Some(&"k1".to_string()));
}

#[test]
fn differ_empty_log_emits_nothing_and_keeps_cursor() {
    let mut w = GitWatcher::new(test_config());
    w.process_repo("/r/x", LOG_THREE);
    let events = w.process_repo("/r/x", "");
    assert!(events.is_empty());
    assert_eq!(w.cursors.get("/r/x"), Some(&"h3".to_string()));
}

#[test]
fn malformed_history_lines_are_discarded() {
    assert!(parse_commit_line("no pipes here").is_none());
    assert!(parse_commit_line("only|two|pipes").is_none());
    assert!(parse_commit_line("").is_none());
    let c = parse_commit_line("h|s|a|2024-05-01 10:00:00 +0000").unwrap();
    assert_eq!(c.hash, "h");
    assert_eq!(c.subject, "s");
    assert_eq!(c.author, "a");
    assert_eq!(c.timestamp, "2024-05-01 10:00:00 +0000");
    // The timestamp keeps any further pipes.
    let d = parse_commit_line("h|s|a|t|extra").unwrap();
    assert_eq!(d.timestamp, "t|extra");
}

#[test]
fn differ_mixed_log_skips_malformed_lines() {
    let mut w = GitWatcher::new(test_config());
    let log = "h2|ok|a|t2\ngarbage line\nh1|fine|b|t1\n";
    let events = w.process_repo("/r/x", log);
    assert_eq!(events.len(), 2);
    assert_eq!(events[0].data.hash, "h2");
    assert_eq!(events[1].data.hash, "h1");
}

#[test]
fn stop_is_idempotent_and_halts() {
    let mut w = GitWatcher::new(test_config());
    w.start_running();
    assert!(w.running);
    w.stop();
    assert!(!w.running);
    w.stop();
    assert!(!w.running);
}

#[test]
fn repo_match_uses_path_components() {
    let repos = vec!["/r/a".to_string(), "/r/b".to_string()];
    assert_eq!(
        repo_from_event_path("/r/a/.git/refs/heads/main", &repos),
        Some("/r/a".to_string())
    );
    assert_eq!(repo_from_event_path("/r/b", &repos), Some("/r/b".to_string()));
    // A sibling whose name merely extends the repo's is no match.
    assert_eq!(repo_from_event_path("/r/ab/file", &repos), None);
    assert_eq!(repo_from_event_path("/elsewhere", &repos), None);
}

#[test]
fn changed_repos_deduplicates_in_first_appearance_order() {
    let repos = vec!["/r/a".to_string(), "/r/b".to_string()];
    let paths = vec![
        "/r/b/.git/refs/heads/main".to_string(),
        "/r/a/file".to_string(),
        "/r/b/other".to_string(),
        "/unknown/place".to_string(),
    ];
    let changed = changed_repos(&paths, &repos);
    assert_eq!(changed, vec!["/r/b".to_string(), "/r/a".to_string()]);
}
