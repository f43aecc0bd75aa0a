//! Configuration snapshot consumed by the watchers and the scheduler.
//! Loading and saving the on-disk form belongs to the surrounding
//! application; the library only reads these values.
use vstd::prelude::*;

verus! {

#[derive(Clone, Debug)]
pub struct AmberConfig {
    pub sources: SourcesConfig,
    pub summarizer: SummarizerConfig,
    pub schedule: ScheduleConfig,
    pub storage: StorageConfig,
}

#[derive(Clone, Debug)]
pub struct SourcesConfig {
    pub git: GitSourceConfig,
}

#[derive(Clone, Debug)]
pub struct GitSourceConfig {
    pub watch_paths: Vec<String>,
    pub scan_depth: u32,
    pub enabled: bool,
}

#[derive(Clone, Debug)]
pub struct SummarizerConfig {
    pub provider: String,
    pub model: String,
    pub api_base: String,
    pub api_key_env: String,
}

#[derive(Clone, Debug)]
pub struct ScheduleConfig {
    pub ingest_minutes: u32,
    pub daily_hour: u32,
}

#[derive(Clone, Debug)]
pub struct StorageConfig {
    pub base_dir: String,
}

impl Default for AmberConfig {
    /// The out-of-the-box configuration: watch `~/src` three levels deep,
    /// summarize at hour 22 through the OpenAI-compatible provider, store
    /// under `~/.amber`.
    fn default() -> (r: Self)
        ensures
            r.sources.git.watch_paths@.len() == 1,
            r.sources.git.watch_paths@[0]@ == "~/src"@,
            r.sources.git.scan_depth == 3,
            r.sources.git.enabled == true,
            r.summarizer.provider@ == "openai-compatible"@,
            r.summarizer.model@ == "gpt-4o-mini"@,
            r.summarizer.api_base@ == "https://api.openai.com/v1"@,
            r.summarizer.api_key_env@ == "OPENAI_API_KEY"@,
            r.schedule.ingest_minutes == 15,
            r.schedule.daily_hour == 22,
            r.storage.base_dir@ == "~/.amber"@,
    {
        let mut watch_paths: Vec<String> = Vec::new();
        watch_paths.push(String::from_str("~/src"));
        AmberConfig {
            sources: SourcesConfig {
                git: GitSourceConfig { watch_paths, scan_depth: 3, enabled: true },
            },
            summarizer: SummarizerConfig {
                provider: String::from_str("openai-compatible"),
                model: String::from_str("gpt-4o-mini"),
                api_base: String::from_str("https://api.openai.com/v1"),
                api_key_env: String::from_str("OPENAI_API_KEY"),
            },
            schedule: ScheduleConfig { ingest_minutes: 15, daily_hour: 22 },
            storage: StorageConfig { base_dir: String::from_str("~/.amber") },
        }
    }
}

} // verus!
