//! The language-model capability: a structured conversation in, free-form
//! note text out. Implementations are pluggable; the HTTP-backed one
//! belongs to the surrounding application.
use vstd::prelude::*;

use crate::error::AmberError;

verus! {

/// One turn of a conversation: a role tag and its text.
#[derive(Clone, Debug)]
pub struct Message {
    pub role: String,
    pub content: String,
}

impl Message {
    /// A system-role turn carrying `content`.
    pub fn system(content: String) -> (r: Message)
        ensures
            r.role@ == "system"@,
            r.content == content,
    {
        Message { role: String::from_str("system"), content }
    }

    /// A user-role turn carrying `content`.
    pub fn user(content: String) -> (r: Message)
        ensures
            r.role@ == "user"@,
            r.content == content,
    {
        Message { role: String::from_str("user"), content }
    }
}

/// The summarization capability. Nothing is promised of the text an
/// implementation returns, nor of when it fails: callers state what they
/// do with whatever comes back.
pub trait LlmProvider {
    fn complete(&self, messages: Vec<Message>) -> Result<String, AmberError>;
}

/// Connection settings of an OpenAI-compatible chat-completion endpoint.
/// The request itself is the application's work; the library only lays
/// out what can be computed from these values.
pub struct OpenAICompatibleProvider {
    pub api_base: String,
    pub model: String,
    pub api_key_env: String,
}

impl OpenAICompatibleProvider {
    /// The chat-completion endpoint under the configured base URL.
    pub fn completions_url(&self) -> (r: String)
        ensures
            r@ == self.api_base@ + "/chat/completions"@,
    {
        self.api_base.clone().concat("/chat/completions")
    }
}

} // verus!
