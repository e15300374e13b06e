use murmure::formatting::add_space_before_punctuation;
use murmure::engine::{MedAsrInferenceParams, MelConfig, ParakeetInferenceParams,
    ParakeetModelParams, QuantizationType, TimestampGranularity};
use murmure::history::HistoryData;
use murmure::llm::LLMConnectSettings;
use murmure::onboarding::{mark_onboarding_on_history_write, record_focus_at_start_take,
    set_record_focus_at_start};
use murmure::settings::{AppSettings, OnboardingState};
use murmure::sound::Sound;
use murmure::state::{LLMRecordShortcutKeys, LastTranscriptShortcutKeys, RecordShortcutKeys,
    ShortcutState, TranscriptionSuspended};

#[test]
fn shortcut_state_flags_round_trip() {
    let mut state = ShortcutState::new(false, true, false);
    assert!(!state.is_suspended());
    assert!(state.is_toggle_required());
    assert!(!state.is_toggled());
    state.set_suspended(true);
    state.set_toggle_required(false);
    state.set_toggled(true);
    assert!(state.is_suspended());
    assert!(!state.is_toggle_required());
    assert!(state.is_toggled());
}

#[test]
fn transcription_suspended_round_trip() {
    let mut flag = TranscriptionSuspended::new(false);
    assert!(!flag.get());
    flag.set(true);
    assert!(flag.get());
}

#[test]
fn shortcut_key_cells_round_trip() {
    let mut record = RecordShortcutKeys::new(vec![0x11, 0x20]);
    assert_eq!(record.get(), vec![0x11, 0x20]);
    record.set(vec![0x10, 0x41]);
    assert_eq!(record.get(), vec![0x10, 0x41]);

    let last = LastTranscriptShortcutKeys::new(vec![0x11, 0x10, 0x20]);
    assert_eq!(last.get(), vec![0x11, 0x10, 0x20]);

    let mut llm = LLMRecordShortcutKeys::new(Vec::new());
    assert_eq!(llm.get(), Vec::<i32>::new());
    llm.set(vec![0x11, 0x12, 0x20]);
    assert_eq!(llm.get(), vec![0x11, 0x12, 0x20]);
}

#[test]
fn default_settings_match_the_shipped_bindings() {
    let s = AppSettings::default();
    assert_eq!(s.record_shortcut, "ctrl+space");
    assert_eq!(s.last_transcript_shortcut, "ctrl+shift+space");
    assert_eq!(s.llm_record_shortcut, "ctrl+alt+space");
    assert_eq!(s.overlay_mode, "recording");
    assert_eq!(s.overlay_position, "bottom");
    assert!(!s.api_enabled);
    assert_eq!(s.api_port, 4800);
    assert!(s.persist_history);
    assert_eq!(s.language, "default");
    assert!(!s.onboarding.used_home_shortcut);
}

#[test]
fn focus_snapshot_is_consumed_once() {
    let mut slot: Option<bool> = None;
    set_record_focus_at_start(&mut slot, true);
    assert_eq!(record_focus_at_start_take(&mut slot), Some(true));
    assert_eq!(record_focus_at_start_take(&mut slot), None);
}

#[test]
fn onboarding_marks_by_focus_snapshot() {
    // A focused recording marks the home-shortcut task.
    let mut s = OnboardingState::default();
    assert!(mark_onboarding_on_history_write(&mut s, Some(true), false, false));
    assert!(s.used_home_shortcut);
    assert!(!s.transcribed_outside_app);

    // An unfocused one, once onboarding has started, marks outside use.
    assert!(mark_onboarding_on_history_write(&mut s, Some(false), true, false));
    assert!(s.transcribed_outside_app);

    // Nothing left to mark: no change.
    assert!(!mark_onboarding_on_history_write(&mut s, Some(true), true, false));

    // On a fresh record, an unfocused write may be assumed focused.
    let mut fresh = OnboardingState::default();
    assert!(mark_onboarding_on_history_write(&mut fresh, None, false, true));
    assert!(fresh.used_home_shortcut);
    assert!(!fresh.transcribed_outside_app);
}

#[test]
fn space_is_added_before_bare_punctuation() {
    assert_eq!(add_space_before_punctuation("Really?"), "Really ?");
    assert_eq!(add_space_before_punctuation("Stop! Now!"), "Stop ! Now !");
    assert_eq!(add_space_before_punctuation("Already ?"), "Already ?");
    assert_eq!(add_space_before_punctuation("?!"), "? !");
    assert_eq!(add_space_before_punctuation("?"), "?");
    assert_eq!(add_space_before_punctuation(""), "");
}

#[test]
fn sound_cues_share_one_file() {
    assert_eq!(Sound::StartRecording.filename(), "start_record.mp3");
    assert_eq!(Sound::StopRecording.filename(), "start_record.mp3");
}

#[test]
fn engine_parameter_defaults() {
    let mel = MelConfig::default();
    assert_eq!(mel.sample_rate, 16000);
    assert_eq!(mel.n_fft, 512);
    assert_eq!(mel.hop_length, 160);
    assert_eq!(mel.win_length, 400);
    assert_eq!(mel.n_mels, 128);
    assert_eq!(ParakeetModelParams::default().quantization, QuantizationType::FP32);
    assert_eq!(ParakeetModelParams::int8().quantization, QuantizationType::Int8);
    assert_eq!(
        ParakeetInferenceParams::default().timestamp_granularity,
        TimestampGranularity::Token
    );
    let med = MedAsrInferenceParams::default();
    assert_eq!(med.timestamp_granularity, TimestampGranularity::Token);
    assert_eq!(med.beam_width, 8);
}

#[test]
fn collaborator_shapes_default_sensibly() {
    let llm = LLMConnectSettings::default();
    assert_eq!(llm.url, "http://localhost:11434/api");
    assert_eq!(llm.model, "");
    assert!(!llm.onboarding_completed);

    let history = HistoryData::default();
    assert_eq!(history.entries.len(), 0);
    assert_eq!(history.next_id, 1);
}
