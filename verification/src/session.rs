//! The recording-session state machine: consumes the activation edges
//! the processor emits, enforces that at most one recording session is
//! active, applies push-to-talk and toggle-to-talk semantics, and tells
//! the caller which collaborator calls to make.
//!
//! The external audio and transcription subsystems are reached only
//! through the effects returned here; the machine itself never blocks
//! and never calls out.

use vstd::prelude::*;
use crate::registry::{ActivationMode, KeyEventType, ShortcutAction};

verus! {

/// Milliseconds between honored mode-switch presses, suppressing flicker
/// when adjacent mode shortcuts share keys.
pub const MODE_SWITCH_DEBOUNCE_MS: u64 = 300;

/// Which logical dictation mode currently owns the recording session.
#[derive(Clone, Copy, Debug, PartialEq, Eq, Structural)]
pub enum RecordingSource {
    Idle,
    Standard,
    Llm,
    Command,
}

/// What the caller must do after feeding the controller one edge.
/// `Start` asks for a focus snapshot to be captured and the recording of
/// the given source started; `Stop` asks for the active recording to be
/// stopped.
#[derive(Clone, Copy, Debug, PartialEq, Eq, Structural)]
pub enum SessionEffect {
    Start(RecordingSource),
    Stop,
    Ignored,
}

/// The recording source a shortcut action asks for, if it is a recording
/// action at all. Paste and mode switching are not part of this state
/// machine.
pub open spec fn spec_action_source(action: ShortcutAction) -> Option<RecordingSource> {
    match action {
        ShortcutAction::StartRecording => Some(RecordingSource::Standard),
        ShortcutAction::StartRecordingLLM => Some(RecordingSource::Llm),
        ShortcutAction::StartRecordingCommand => Some(RecordingSource::Command),
        ShortcutAction::PasteLastTranscript => None,
        ShortcutAction::SwitchLLMMode(_) => None,
    }
}

/// Executable twin of [`spec_action_source`].
pub fn action_source(action: ShortcutAction) -> (r: Option<RecordingSource>)
    ensures
        r == spec_action_source(action),
{
    match action {
        ShortcutAction::StartRecording => Some(RecordingSource::Standard),
        ShortcutAction::StartRecordingLLM => Some(RecordingSource::Llm),
        ShortcutAction::StartRecordingCommand => Some(RecordingSource::Command),
        ShortcutAction::PasteLastTranscript => None,
        ShortcutAction::SwitchLLMMode(_) => None,
    }
}

/// The transition table of the session controller, over
/// `(source, toggle flag)`:
/// - from idle, a Pressed edge starts the matching recording at once
///   under push-to-talk, and flips the toggle flag under toggle-to-talk,
///   starting only when the flag becomes set;
/// - while a source is active, a Pressed edge for the same action under
///   toggle-to-talk toggles off and stops; its Released edge stops only
///   under push-to-talk;
/// - a Pressed edge for a different recording action while one is active
///   is dropped without any state change or effect;
/// - edges of non-recording actions never touch this machine.
pub open spec fn spec_session_step(
    source: RecordingSource,
    toggled: bool,
    action: ShortcutAction,
    mode: ActivationMode,
    edge: KeyEventType,
) -> (RecordingSource, bool, SessionEffect) {
    match spec_action_source(action) {
        None => (source, toggled, SessionEffect::Ignored),
        Some(target) => match edge {
            KeyEventType::Pressed => {
                if source == RecordingSource::Idle {
                    if mode == ActivationMode::PushToTalk {
                        (target, toggled, SessionEffect::Start(target))
                    } else {
                        let flipped = !toggled;
                        if flipped {
                            (target, flipped, SessionEffect::Start(target))
                        } else {
                            (RecordingSource::Idle, flipped, SessionEffect::Ignored)
                        }
                    }
                } else if source == target && mode == ActivationMode::ToggleToTalk {
                    (RecordingSource::Idle, false, SessionEffect::Stop)
                } else {
                    (source, toggled, SessionEffect::Ignored)
                }
            },
            KeyEventType::Released => {
                if source == target && mode == ActivationMode::PushToTalk {
                    (RecordingSource::Idle, toggled, SessionEffect::Stop)
                } else {
                    (source, toggled, SessionEffect::Ignored)
                }
            },
        },
    }
}

/// The hard resource guard: when the audio collaborator reports its
/// recording limit reached while a session is active, the session is
/// force-stopped whatever the activation mode, and the toggle flag is
/// reset.
pub open spec fn spec_limit_step(
    source: RecordingSource,
    toggled: bool,
    limit_reached: bool,
) -> (RecordingSource, bool, SessionEffect) {
    if limit_reached && source != RecordingSource::Idle {
        (RecordingSource::Idle, false, SessionEffect::Stop)
    } else {
        (source, toggled, SessionEffect::Ignored)
    }
}

/// The session controller state. Owned by the single consumer thread;
/// everything it decides is returned as a [`SessionEffect`].
pub struct RecordingSessionController {
    source: RecordingSource,
    toggled: bool,
}

impl RecordingSessionController {
    /// The recording source currently owning the session.
    pub closed spec fn spec_source(self) -> RecordingSource {
        self.source
    }

    /// The toggle-to-talk flag.
    pub closed spec fn spec_toggled(self) -> bool {
        self.toggled
    }

    /// A fresh controller: idle, toggle flag clear.
    pub fn new() -> (r: RecordingSessionController)
        ensures
            r.spec_source() == RecordingSource::Idle,
            !r.spec_toggled(),
    {
        RecordingSessionController { source: RecordingSource::Idle, toggled: false }
    }

    /// The recording source currently owning the session.
    pub fn source(&self) -> (r: RecordingSource)
        ensures
            r == self.spec_source(),
    {
        self.source
    }

    /// Whether toggle-to-talk currently holds the session open.
    pub fn is_toggled(&self) -> (r: bool)
        ensures
            r == self.spec_toggled(),
    {
        self.toggled
    }

    /// Feed one activation edge through the transition table and return
    /// the collaborator call to make.
    pub fn handle_edge(
        &mut self,
        action: ShortcutAction,
        mode: ActivationMode,
        edge: KeyEventType,
    ) -> (r: SessionEffect)
        ensures
            ({
                let (src, tog, eff) = spec_session_step(
                    old(self).spec_source(),
                    old(self).spec_toggled(),
                    action,
                    mode,
                    edge,
                );
                &&& final(self).spec_source() == src
                &&& final(self).spec_toggled() == tog
                &&& r == eff
            }),
    {
        let target = match action_source(action) {
            Some(t) => t,
            None => {
                return SessionEffect::Ignored;
            },
        };
        match edge {
            KeyEventType::Pressed => {
                if self.source == RecordingSource::Idle {
                    if mode == ActivationMode::PushToTalk {
                        self.source = target;
                        SessionEffect::Start(target)
                    } else {
                        let flipped = !self.toggled;
                        self.toggled = flipped;
                        if flipped {
                            self.source = target;
                            SessionEffect::Start(target)
                        } else {
                            SessionEffect::Ignored
                        }
                    }
                } else if self.source == target && mode == ActivationMode::ToggleToTalk {
                    self.source = RecordingSource::Idle;
                    self.toggled = false;
                    SessionEffect::Stop
                } else {
                    SessionEffect::Ignored
                }
            },
            KeyEventType::Released => {
                if self.source == target && mode == ActivationMode::PushToTalk {
                    self.source = RecordingSource::Idle;
                    SessionEffect::Stop
                } else {
                    SessionEffect::Ignored
                }
            },
        }
    }

    /// Apply the hard resource guard; call this when the audio
    /// collaborator reports whether its recording limit is reached.
    pub fn handle_limit(&mut self, limit_reached: bool) -> (r: SessionEffect)
        ensures
            ({
                let (src, tog, eff) = spec_limit_step(
                    old(self).spec_source(),
                    old(self).spec_toggled(),
                    limit_reached,
                );
                &&& final(self).spec_source() == src
                &&& final(self).spec_toggled() == tog
                &&& r == eff
            }),
    {
        if limit_reached && !matches!(self.source, RecordingSource::Idle) {
            self.source = RecordingSource::Idle;
            self.toggled = false;
            SessionEffect::Stop
        } else {
            SessionEffect::Ignored
        }
    }
}

/// The lightweight sibling consumer that dispatches LLM-mode-switch
/// presses, with its own debounce window independent of recording.
pub struct ModeSwitchController {
    last_switch_ms: Option<u64>,
}

impl ModeSwitchController {
    /// The time of the last honored switch, if any.
    pub closed spec fn spec_last_switch(self) -> Option<u64> {
        self.last_switch_ms
    }

    /// A fresh controller that honors its first press immediately.
    pub fn new() -> (r: ModeSwitchController)
        ensures
            r.spec_last_switch() is None,
    {
        ModeSwitchController { last_switch_ms: None }
    }

    /// Feed one mode-switch press. Returns the mode index to activate,
    /// or `None` when the press falls inside the debounce window of the
    /// previous honored press.
    pub fn on_switch_pressed(&mut self, index: usize, now_ms: u64) -> (r: Option<usize>)
        ensures
            ({
                let honored = match old(self).spec_last_switch() {
                    None => true,
                    Some(t) => now_ms >= t + MODE_SWITCH_DEBOUNCE_MS,
                };
                if honored {
                    &&& r == Some(index)
                    &&& final(self).spec_last_switch() == Some(now_ms)
                } else {
                    &&& r is None
                    &&& final(self).spec_last_switch() == old(self).spec_last_switch()
                }
            }),
    {
        let honored = match self.last_switch_ms {
            None => true,
            Some(t) => now_ms >= t && now_ms - t >= MODE_SWITCH_DEBOUNCE_MS,
        };
        if honored {
            self.last_switch_ms = Some(now_ms);
            Some(index)
        } else {
            None
        }
    }
}

/// Paste and mode-switch edges are not this machine's business: they
/// never change the session state, whatever it is.
pub proof fn lemma_non_recording_edges_are_inert(
    source: RecordingSource,
    toggled: bool,
    action: ShortcutAction,
    mode: ActivationMode,
    edge: KeyEventType,
)
    requires
        spec_action_source(action) is None,
    ensures
        spec_session_step(source, toggled, action, mode, edge) == (
            source,
            toggled,
            SessionEffect::Ignored,
        ),
{
}

/// Mutual exclusion: while a recording source is active, a Pressed edge
/// for a different recording action produces no state change and no
/// collaborator call.
pub proof fn lemma_mutual_exclusion(
    source: RecordingSource,
    toggled: bool,
    action: ShortcutAction,
    mode: ActivationMode,
)
    requires
        source != RecordingSource::Idle,
        spec_action_source(action) is Some,
        spec_action_source(action) != Some(source),
    ensures
        spec_session_step(source, toggled, action, mode, KeyEventType::Pressed) == (
            source,
            toggled,
            SessionEffect::Ignored,
        ),
{
}

/// Toggle correctness: under toggle-to-talk, two consecutive Pressed
/// edges for the same recording action flip the toggle exactly twice —
/// the first starts the recording, the second stops it — even when no
/// Released edge is processed in between (Released edges of the action
/// are ignored under toggle-to-talk and change nothing).
pub proof fn lemma_toggle_press_twice(action: ShortcutAction, target: RecordingSource)
    requires
        spec_action_source(action) == Some(target),
    ensures
        ({
            let first = spec_session_step(
                RecordingSource::Idle,
                false,
                action,
                ActivationMode::ToggleToTalk,
                KeyEventType::Pressed,
            );
            let ignored = spec_session_step(
                first.0,
                first.1,
                action,
                ActivationMode::ToggleToTalk,
                KeyEventType::Released,
            );
            let second = spec_session_step(
                ignored.0,
                ignored.1,
                action,
                ActivationMode::ToggleToTalk,
                KeyEventType::Pressed,
            );
            &&& first == (target, true, SessionEffect::Start(target))
            &&& ignored == (target, true, SessionEffect::Ignored)
            &&& second == (RecordingSource::Idle, false, SessionEffect::Stop)
        }),
{
}

/// The resource guard outranks user input: whatever the mode and toggle
/// state, a reported limit while recording stops the session and resets
/// the toggle flag.
pub proof fn lemma_limit_force_stops(source: RecordingSource, toggled: bool)
    requires
        source != RecordingSource::Idle,
    ensures
        spec_limit_step(source, toggled, true) == (
            RecordingSource::Idle,
            false,
            SessionEffect::Stop,
        ),
{
}

} // verus!
