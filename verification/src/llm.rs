//! The shapes exchanged with the local language-model server used for
//! post-processing, and its connection settings.

use vstd::prelude::*;
use vstd::string::StringExecFns;

verus! {

/// How to reach the local language-model server.
#[derive(Clone, Debug)]
pub struct LLMConnectSettings {
    pub url: String,
    pub model: String,
    pub prompt: String,
    pub onboarding_completed: bool,
}

impl Default for LLMConnectSettings {
    fn default() -> (r: LLMConnectSettings)
        ensures
            r.url@ == "http://localhost:11434/api"@,
            r.model@.len() == 0,
            r.prompt@.len() == 0,
            !r.onboarding_completed,
    {
        LLMConnectSettings {
            url: String::from_str("http://localhost:11434/api"),
            model: String::new(),
            prompt: String::new(),
            onboarding_completed: false,
        }
    }
}

/// One generation request sent to the server.
#[derive(Debug)]
pub struct OllamaGenerateRequest {
    pub model: String,
    pub prompt: String,
    pub stream: bool,
}

/// One generation answer from the server.
#[derive(Debug)]
pub struct OllamaGenerateResponse {
    pub response: String,
    pub done: bool,
}

/// The model list the server reports.
#[derive(Debug)]
pub struct OllamaTagsResponse {
    pub models: Vec<OllamaModel>,
}

/// One installed model.
#[derive(Clone, Debug)]
pub struct OllamaModel {
    pub name: String,
}

} // verus!
