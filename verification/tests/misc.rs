use amber::config::AmberConfig;
use amber::error::AmberError;
use amber::summarizer::provider::OpenAICompatibleProvider;
use amber::AppState;

#[test]
fn default_configuration_matches_the_documented_values() {
    let c = AmberConfig::default();
    assert_eq!(c.sources.git.watch_paths, vec!["~/src".to_string()]);
    assert_eq!(c.sources.git.scan_depth, 3);
    assert!(c.sources.git.enabled);
    assert_eq!(c.summarizer.provider, "openai-compatible");
    assert_eq!(c.summarizer.model, "gpt-4o-mini");
    assert_eq!(c.summarizer.api_base, "https://api.openai.com/v1");
    assert_eq!(c.summarizer.api_key_env, "OPENAI_API_KEY");
    assert_eq!(c.schedule.ingest_minutes, 15);
    assert_eq!(c.schedule.daily_hour, 22);
    assert_eq!(c.storage.base_dir, "~/.amber");
}

#[test]
fn error_messages_name_their_domain() {
    assert_eq!(AmberError::Config("bad".to_string()).message(), "Config error: bad");
    assert_eq!(AmberError::Storage("disk".to_string()).message(), "Storage error: disk");
    assert_eq!(AmberError::Watcher("fsn".to_string()).message(), "Watcher error: fsn");
    assert_eq!(AmberError::Provider("key".to_string()).message(), "Provider error: key");
    assert_eq!(AmberError::Serde("json".to_string()).message(), "JSON error: json");
    assert_eq!(AmberError::Yaml("yaml".to_string()).message(), "YAML error: yaml");
    assert_eq!(AmberError::Io("io".to_string()).message(), "IO error: io");
}

#[test]
fn app_state_starts_idle_and_snapshots_status() {
    let mut state = AppState::new(AmberConfig::default());
    assert!(!state.watchers_running);
    assert_eq!(state.buffered_events, 0);
    assert!(state.last_summarized.is_none());

    state.watchers_running = true;
    state.buffered_events = 7;
    state.last_summarized = Some("2024-05-01".to_string());
    let status = state.status();
    assert!(status.watchers_running);
    assert_eq!(status.buffered_events, 7);
    assert_eq!(status.last_summarized, Some("2024-05-01".to_string()));
}

#[test]
fn completions_url_extends_the_base() {
    let p = OpenAICompatibleProvider {
        api_base: "https://api.openai.com/v1".to_string(),
        model: "gpt-4o-mini".to_string(),
        api_key_env: "OPENAI_API_KEY".to_string(),
    };
    assert_eq!(p.completions_url(), "https://api.openai.com/v1/chat/completions");
}
