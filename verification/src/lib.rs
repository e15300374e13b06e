//! A system-wide keyboard-shortcut engine for a dictation application.
//!
//! The engine turns platform key events, already normalized to portable
//! virtual-key codes, into logical shortcut activations, and drives the
//! recording-session state machine that starts and stops dictation.
//! Platform capture, audio, and UI live outside this crate; everything
//! in here is pure logic over plain values and is verified.

pub mod binding;
pub mod build_info;
pub mod dictionary;
pub mod engine;
pub mod formatting;
pub mod history;
pub mod hotkey;
pub mod http_api;
pub mod keys;
pub mod llm;
pub mod llm_connect;
pub mod onboarding;
pub mod processor;
pub mod registry;
pub mod session;
pub mod settings;
pub mod sound;
pub mod state;
pub mod text;
pub mod updater;
