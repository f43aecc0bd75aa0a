//! Error kinds shared by every component of the library.
use vstd::prelude::*;

verus! {

/// One variant per failure domain: configuration, storage, filesystem
/// watching, the language-model provider, and the three wrapped external
/// failure sources (JSON, YAML, I/O), each carrying a human-readable message.
pub enum AmberError {
    Config(String),
    Storage(String),
    Watcher(String),
    Provider(String),
    Serde(String),
    Yaml(String),
    Io(String),
}

impl AmberError {
    /// The rendered message: a fixed prefix naming the failure domain,
    /// followed by the carried detail text.
    pub open spec fn spec_message(&self) -> Seq<char> {
        match self {
            AmberError::Config(m) => "Config error: "@ + m@,
            AmberError::Storage(m) => "Storage error: "@ + m@,
            AmberError::Watcher(m) => "Watcher error: "@ + m@,
            AmberError::Provider(m) => "Provider error: "@ + m@,
            AmberError::Serde(m) => "JSON error: "@ + m@,
            AmberError::Yaml(m) => "YAML error: "@ + m@,
            AmberError::Io(m) => "IO error: "@ + m@,
        }
    }

    pub fn message(&self) -> (r: String)
        ensures
            r@ == self.spec_message(),
    {
        match self {
            AmberError::Config(m) => {
                let mut s = String::from_str("Config error: ");
                s.append(m.as_str());
                s
            },
            AmberError::Storage(m) => {
                let mut s = String::from_str("Storage error: ");
                s.append(m.as_str());
                s
            },
            AmberError::Watcher(m) => {
                let mut s = String::from_str("Watcher error: ");
                s.append(m.as_str());
                s
            },
            AmberError::Provider(m) => {
                let mut s = String::from_str("Provider error: ");
                s.append(m.as_str());
                s
            },
            AmberError::Serde(m) => {
                let mut s = String::from_str("JSON error: ");
                s.append(m.as_str());
                s
            },
            AmberError::Yaml(m) => {
                let mut s = String::from_str("YAML error: ");
                s.append(m.as_str());
                s
            },
            AmberError::Io(m) => {
                let mut s = String::from_str("IO error: ");
                s.append(m.as_str());
                s
            },
        }
    }
}

} // verus!
