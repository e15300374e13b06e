//! The persisted application settings: one binding string and one
//! activation mode per recording action, the paste binding, and the
//! onboarding bookkeeping. The settings store itself lives outside;
//! this is the shape and the defaults.

use vstd::prelude::*;
use vstd::string::StringExecFns;

verus! {

/// Which onboarding tasks the user has completed.
#[derive(Clone, Debug)]
pub struct OnboardingState {
    pub used_home_shortcut: bool,
    pub transcribed_outside_app: bool,
    pub added_dictionary_word: bool,
    pub congrats_dismissed: bool,
}

impl Default for OnboardingState {
    /// A fresh onboarding record: nothing done yet.
    fn default() -> (r: OnboardingState)
        ensures
            !r.used_home_shortcut,
            !r.transcribed_outside_app,
            !r.added_dictionary_word,
            !r.congrats_dismissed,
    {
        OnboardingState {
            used_home_shortcut: false,
            transcribed_outside_app: false,
            added_dictionary_word: false,
            congrats_dismissed: false,
        }
    }
}

/// The persisted settings, re-read at startup to rebuild the registry.
#[derive(Clone, Debug)]
pub struct AppSettings {
    pub record_shortcut: String,
    pub last_transcript_shortcut: String,
    pub llm_record_shortcut: String,
    pub dictionary: Vec<String>,
    pub overlay_mode: String,
    pub overlay_position: String,
    pub api_enabled: bool,
    pub api_port: u16,
    pub copy_to_clipboard: bool,
    pub persist_history: bool,
    pub language: String,
    pub onboarding: OnboardingState,
}

impl Default for AppSettings {
    /// The out-of-the-box settings.
    fn default() -> (r: AppSettings)
        ensures
            r.record_shortcut@ == "ctrl+space"@,
            r.last_transcript_shortcut@ == "ctrl+shift+space"@,
            r.llm_record_shortcut@ == "ctrl+alt+space"@,
            r.dictionary@.len() == 0,
            r.overlay_mode@ == "recording"@,
            r.overlay_position@ == "bottom"@,
            !r.api_enabled,
            r.api_port == 4800,
            !r.copy_to_clipboard,
            r.persist_history,
            r.language@ == "default"@,
            !r.onboarding.used_home_shortcut,
            !r.onboarding.transcribed_outside_app,
            !r.onboarding.added_dictionary_word,
            !r.onboarding.congrats_dismissed,
    {
        AppSettings {
            record_shortcut: String::from_str("ctrl+space"),
            last_transcript_shortcut: String::from_str("ctrl+shift+space"),
            llm_record_shortcut: String::from_str("ctrl+alt+space"),
            dictionary: Vec::new(),
            overlay_mode: String::from_str("recording"),
            overlay_position: String::from_str("bottom"),
            api_enabled: false,
            api_port: 4800,
            copy_to_clipboard: false,
            persist_history: true,
            language: String::from_str("default"),
            onboarding: OnboardingState::default(),
        }
    }
}

} // verus!
