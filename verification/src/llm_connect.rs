//! The earlier connection-settings shape of the language-model link,
//! kept for stored settings written before the multi-mode layout.

use vstd::prelude::*;
use vstd::string::StringExecFns;

verus! {

/// How to reach the server, with the link's own on/off switch.
#[derive(Clone, Debug)]
pub struct LLMConnectSettings {
    pub enabled: bool,
    pub url: String,
    pub model: String,
    pub prompt: String,
}

impl Default for LLMConnectSettings {
    fn default() -> (r: LLMConnectSettings)
        ensures
            !r.enabled,
            r.url@ == "http://localhost:11434/api"@,
            r.model@.len() == 0,
            r.prompt@.len() == 0,
    {
        LLMConnectSettings {
            enabled: false,
            url: String::from_str("http://localhost:11434/api"),
            model: String::new(),
            prompt: String::new(),
        }
    }
}

/// One generation answer from the server.
#[derive(Debug)]
pub struct OllamaGenerateResponse {
    pub response: String,
    pub done: bool,
}

/// One installed model.
#[derive(Clone, Debug)]
pub struct OllamaModel {
    pub name: String,
}

} // verus!
