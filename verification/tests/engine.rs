use murmure::processor::{EventProcessor, FiredShortcut};
use murmure::registry::{ActivationMode, KeyEventType, ShortcutAction, ShortcutRegistry};
use murmure::session::{ModeSwitchController, RecordingSessionController, RecordingSource,
    SessionEffect};

const VK_SHIFT: i32 = 0x10;
const VK_CONTROL: i32 = 0x11;
const VK_SPACE: i32 = 0x20;
const VK_R: i32 = 0x52;

fn feed(
    processor: &mut EventProcessor,
    controller: &mut RecordingSessionController,
    registry: &ShortcutRegistry,
    key: i32,
    edge: KeyEventType,
    now_ms: u64,
) -> (Option<FiredShortcut>, SessionEffect) {
    let fired = processor.handle_event(registry, false, key, edge, now_ms);
    let effect = match fired {
        Some(f) => controller.handle_edge(f.action, f.activation_mode, f.edge),
        None => SessionEffect::Ignored,
    };
    (fired, effect)
}

#[test]
fn push_to_talk_session_round_trip() {
    // One binding: Ctrl+Space starts the standard recording, push to talk.
    let mut registry = ShortcutRegistry::new();
    registry.add(
        vec![VK_CONTROL, VK_SPACE],
        ShortcutAction::StartRecording,
        ActivationMode::PushToTalk,
    );
    let mut processor = EventProcessor::new();
    let mut controller = RecordingSessionController::new();

    // Ctrl alone holds only part of the combo: nothing fires.
    let (fired, effect) = feed(
        &mut processor, &mut controller, &registry, VK_CONTROL, KeyEventType::Pressed, 1000,
    );
    assert!(fired.is_none());
    assert_eq!(effect, SessionEffect::Ignored);
    assert_eq!(controller.source(), RecordingSource::Idle);

    // Space completes the combo: the binding fires and recording starts.
    let (fired, effect) = feed(
        &mut processor, &mut controller, &registry, VK_SPACE, KeyEventType::Pressed, 1020,
    );
    let fired = fired.expect("combo completion must fire");
    assert_eq!(fired.index, 0);
    assert_eq!(fired.action, ShortcutAction::StartRecording);
    assert_eq!(fired.edge, KeyEventType::Pressed);
    assert_eq!(effect, SessionEffect::Start(RecordingSource::Standard));
    assert_eq!(controller.source(), RecordingSource::Standard);

    // Releasing Space releases the binding and stops the recording.
    let (fired, effect) = feed(
        &mut processor, &mut controller, &registry, VK_SPACE, KeyEventType::Released, 1500,
    );
    let fired = fired.expect("breaking the combo must release");
    assert_eq!(fired.edge, KeyEventType::Released);
    assert_eq!(effect, SessionEffect::Stop);
    assert_eq!(controller.source(), RecordingSource::Idle);

    // Releasing Ctrl afterwards produces no further event.
    let (fired, effect) = feed(
        &mut processor, &mut controller, &registry, VK_CONTROL, KeyEventType::Released, 1510,
    );
    assert!(fired.is_none());
    assert_eq!(effect, SessionEffect::Ignored);
}

#[test]
fn toggle_to_talk_flips_on_each_press() {
    // Ctrl+Shift+R starts the LLM recording, toggle to talk.
    let mut registry = ShortcutRegistry::new();
    registry.add(
        vec![VK_CONTROL, VK_SHIFT, VK_R],
        ShortcutAction::StartRecordingLLM,
        ActivationMode::ToggleToTalk,
    );
    let mut processor = EventProcessor::new();
    let mut controller = RecordingSessionController::new();

    // Press all three keys: the toggle flips on and recording starts.
    feed(&mut processor, &mut controller, &registry, VK_CONTROL, KeyEventType::Pressed, 1000);
    feed(&mut processor, &mut controller, &registry, VK_SHIFT, KeyEventType::Pressed, 1010);
    let (fired, effect) = feed(
        &mut processor, &mut controller, &registry, VK_R, KeyEventType::Pressed, 1020,
    );
    assert!(fired.is_some());
    assert_eq!(effect, SessionEffect::Start(RecordingSource::Llm));
    assert!(controller.is_toggled());
    assert_eq!(controller.source(), RecordingSource::Llm);

    // Releasing a key emits a Released edge, which toggle mode ignores.
    let (fired, effect) = feed(
        &mut processor, &mut controller, &registry, VK_R, KeyEventType::Released, 1200,
    );
    assert!(fired.is_some());
    assert_eq!(effect, SessionEffect::Ignored);
    assert_eq!(controller.source(), RecordingSource::Llm);

    // Pressing the combo again flips the toggle off and stops.
    let (fired, effect) = feed(
        &mut processor, &mut controller, &registry, VK_R, KeyEventType::Pressed, 1400,
    );
    assert!(fired.is_some());
    assert_eq!(effect, SessionEffect::Stop);
    assert!(!controller.is_toggled());
    assert_eq!(controller.source(), RecordingSource::Idle);
}

#[test]
fn debounce_suppresses_rapid_refire() {
    let mut registry = ShortcutRegistry::new();
    registry.add(vec![VK_R], ShortcutAction::StartRecording, ActivationMode::PushToTalk);
    let mut processor = EventProcessor::new();

    assert!(processor.handle_event(&registry, false, VK_R, KeyEventType::Pressed, 1000).is_some());
    assert!(processor.handle_event(&registry, false, VK_R, KeyEventType::Released, 1010).is_some());
    // A second press inside the debounce window is ignored.
    assert!(processor.handle_event(&registry, false, VK_R, KeyEventType::Pressed, 1100).is_none());
    processor.handle_event(&registry, false, VK_R, KeyEventType::Released, 1110);
    // After the window has elapsed the binding fires again.
    assert!(processor.handle_event(&registry, false, VK_R, KeyEventType::Pressed, 1200).is_some());
}

#[test]
fn key_repeat_does_not_refire_engaged_binding() {
    let mut registry = ShortcutRegistry::new();
    registry.add(vec![VK_R], ShortcutAction::StartRecording, ActivationMode::PushToTalk);
    let mut processor = EventProcessor::new();

    assert!(processor.handle_event(&registry, false, VK_R, KeyEventType::Pressed, 1000).is_some());
    // OS key repeat re-sends the key while the binding is engaged.
    assert!(processor.handle_event(&registry, false, VK_R, KeyEventType::Pressed, 1300).is_none());
    assert!(processor.handle_event(&registry, false, VK_R, KeyEventType::Pressed, 1600).is_none());
    assert!(processor.handle_event(&registry, false, VK_R, KeyEventType::Released, 1900).is_some());
}

#[test]
fn first_registered_binding_wins_on_overlap() {
    // The LLM binding is registered before the standard one and uses a
    // superset check on the same keys, so it wins.
    let registry = ShortcutRegistry::build(
        vec![VK_CONTROL, VK_SPACE],
        vec![VK_CONTROL, VK_SPACE],
        Vec::new(),
        Vec::new(),
        vec![],
        ActivationMode::PushToTalk,
    );
    let mut processor = EventProcessor::new();
    processor.handle_event(&registry, false, VK_CONTROL, KeyEventType::Pressed, 1000);
    let fired = processor
        .handle_event(&registry, false, VK_SPACE, KeyEventType::Pressed, 1010)
        .expect("the combo must fire");
    assert_eq!(fired.action, ShortcutAction::StartRecordingLLM);
    assert_eq!(fired.index, 0);
}

#[test]
fn suspension_ignores_bindings_but_tracks_keys() {
    let mut registry = ShortcutRegistry::new();
    registry.add(
        vec![VK_CONTROL, VK_SPACE],
        ShortcutAction::StartRecording,
        ActivationMode::PushToTalk,
    );
    let mut processor = EventProcessor::new();
    // Both keys go down while suspended: nothing fires.
    assert!(processor.handle_event(&registry, true, VK_CONTROL, KeyEventType::Pressed, 1000).is_none());
    assert!(processor.handle_event(&registry, true, VK_SPACE, KeyEventType::Pressed, 1010).is_none());
    // Unsuspended, a repeat of one key completes the tracked combo.
    assert!(processor.handle_event(&registry, false, VK_SPACE, KeyEventType::Pressed, 1400).is_some());
}

#[test]
fn concurrent_recording_actions_are_dropped() {
    let mut controller = RecordingSessionController::new();
    let effect = controller.handle_edge(
        ShortcutAction::StartRecording,
        ActivationMode::PushToTalk,
        KeyEventType::Pressed,
    );
    assert_eq!(effect, SessionEffect::Start(RecordingSource::Standard));

    // An LLM press while the standard recording runs is dropped.
    let effect = controller.handle_edge(
        ShortcutAction::StartRecordingLLM,
        ActivationMode::PushToTalk,
        KeyEventType::Pressed,
    );
    assert_eq!(effect, SessionEffect::Ignored);
    assert_eq!(controller.source(), RecordingSource::Standard);

    // So is the LLM release.
    let effect = controller.handle_edge(
        ShortcutAction::StartRecordingLLM,
        ActivationMode::PushToTalk,
        KeyEventType::Released,
    );
    assert_eq!(effect, SessionEffect::Ignored);
    assert_eq!(controller.source(), RecordingSource::Standard);
}

#[test]
fn limit_guard_force_stops_and_resets_toggle() {
    let mut controller = RecordingSessionController::new();
    controller.handle_edge(
        ShortcutAction::StartRecordingCommand,
        ActivationMode::ToggleToTalk,
        KeyEventType::Pressed,
    );
    assert_eq!(controller.source(), RecordingSource::Command);
    assert!(controller.is_toggled());

    assert_eq!(controller.handle_limit(false), SessionEffect::Ignored);
    assert_eq!(controller.handle_limit(true), SessionEffect::Stop);
    assert_eq!(controller.source(), RecordingSource::Idle);
    assert!(!controller.is_toggled());
    assert_eq!(controller.handle_limit(true), SessionEffect::Ignored);
}

#[test]
fn mode_switch_debounces_rapid_presses() {
    let mut switcher = ModeSwitchController::new();
    assert_eq!(switcher.on_switch_pressed(2, 1000), Some(2));
    assert_eq!(switcher.on_switch_pressed(3, 1100), None);
    assert_eq!(switcher.on_switch_pressed(3, 1299), None);
    assert_eq!(switcher.on_switch_pressed(3, 1300), Some(3));
}

#[test]
fn registry_build_orders_bindings_by_priority() {
    let registry = ShortcutRegistry::build(
        vec![VK_CONTROL, VK_SPACE],
        vec![VK_CONTROL, VK_SHIFT, VK_SPACE],
        vec![VK_CONTROL, VK_R],
        vec![VK_CONTROL, VK_SHIFT, VK_R],
        vec![vec![VK_CONTROL, 0x31], vec![VK_CONTROL, 0x32]],
        ActivationMode::PushToTalk,
    );
    let mut processor = EventProcessor::new();
    // Only the mode-switch combo is down; binding index 4 fires.
    processor.handle_event(&registry, false, VK_CONTROL, KeyEventType::Pressed, 1000);
    let fired = processor
        .handle_event(&registry, false, 0x31, KeyEventType::Pressed, 1010)
        .expect("mode switch must fire");
    assert_eq!(fired.index, 4);
    assert_eq!(fired.action, ShortcutAction::SwitchLLMMode(0));
}

#[test]
fn unrelated_release_keeps_engaged_binding() {
    let mut registry = ShortcutRegistry::new();
    registry.add(
        vec![VK_CONTROL, VK_SPACE],
        ShortcutAction::StartRecording,
        ActivationMode::PushToTalk,
    );
    let mut processor = EventProcessor::new();
    processor.handle_event(&registry, false, VK_CONTROL, KeyEventType::Pressed, 1000);
    assert!(processor.handle_event(&registry, false, VK_SPACE, KeyEventType::Pressed, 1010).is_some());
    // An extra key goes down and up again: the engaged combo is still
    // fully held, so no Released edge is emitted.
    assert!(processor.handle_event(&registry, false, VK_R, KeyEventType::Pressed, 1100).is_none());
    assert!(processor.handle_event(&registry, false, VK_R, KeyEventType::Released, 1200).is_none());
    // Releasing a key of the combo itself releases it.
    assert!(processor.handle_event(&registry, false, VK_CONTROL, KeyEventType::Released, 1300).is_some());
}
