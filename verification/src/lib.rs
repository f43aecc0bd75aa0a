//! Personal activity-ingestion core: discovers git repositories, turns
//! filesystem change batches into commit events, stages them per calendar
//! date, and drives a once-per-day summarization workflow.
use vstd::prelude::*;

pub mod clock;
pub mod config;
pub mod error;
pub mod kv;
pub mod storage;
pub mod strutil;
pub mod summarizer;
pub mod watchers;

verus! {

/// Process-wide state a presentation layer reads: the active
/// configuration and a snapshot of the pipeline's condition.
pub struct AppState {
    pub config: config::AmberConfig,
    pub watchers_running: bool,
    pub buffered_events: usize,
    pub last_summarized: Option<String>,
}

/// A read-only snapshot of the pipeline for a presentation layer.
#[derive(Clone, Debug)]
pub struct AppStatus {
    pub watchers_running: bool,
    pub buffered_events: usize,
    pub last_summarized: Option<String>,
}

impl AppState {
    /// Fresh state around a configuration: nothing running, nothing
    /// buffered, nothing summarized yet.
    pub fn new(config: config::AmberConfig) -> (r: Self)
        ensures
            r.config == config,
            r.watchers_running == false,
            r.buffered_events == 0,
            r.last_summarized is None,
    {
        AppState { config, watchers_running: false, buffered_events: 0, last_summarized: None }
    }

    /// The status snapshot: exactly the three reported fields.
    pub fn status(&self) -> (r: AppStatus)
        ensures
            r.watchers_running == self.watchers_running,
            r.buffered_events == self.buffered_events,
            match r.last_summarized {
                Some(s) => self.last_summarized matches Some(t) && s@ == t@,
                None => self.last_summarized is None,
            },
    {
        AppStatus {
            watchers_running: self.watchers_running,
            buffered_events: self.buffered_events,
            last_summarized: match &self.last_summarized {
                Some(s) => Some(s.clone()),
                None => None,
            },
        }
    }
}

} // verus!
