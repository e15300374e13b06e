//! The set of configured shortcut bindings and the vocabulary the engine
//! speaks: actions, activation modes, and key edges.

use vstd::prelude::*;
use crate::text::str_eq;

verus! {

/// What a binding does when it fires. A dispatch tag only; it carries no
/// state.
#[derive(Clone, Copy, Debug, PartialEq, Eq, Structural)]
pub enum ShortcutAction {
    StartRecording,
    StartRecordingLLM,
    StartRecordingCommand,
    PasteLastTranscript,
    SwitchLLMMode(usize),
}

/// Whether a recording binding behaves as press-and-hold or press-to-flip.
/// Paste and mode-switch bindings are always edge-triggered on press.
#[derive(Clone, Copy, Debug, PartialEq, Eq, Structural)]
pub enum ActivationMode {
    PushToTalk,
    ToggleToTalk,
}

impl ActivationMode {
    /// The activation mode a persisted record-mode setting selects;
    /// everything but the explicit toggle value means push to talk.
    pub fn from_setting(mode: &str) -> (r: ActivationMode)
        ensures
            r == if mode@ == "toggle_to_talk"@ {
                ActivationMode::ToggleToTalk
            } else {
                ActivationMode::PushToTalk
            },
    {
        if str_eq(mode, "toggle_to_talk") {
            ActivationMode::ToggleToTalk
        } else {
            ActivationMode::PushToTalk
        }
    }
}

/// A Pressed or Released transition for a binding, as opposed to raw
/// key-level events.
#[derive(Clone, Copy, Debug, PartialEq, Eq, Structural)]
pub enum KeyEventType {
    Pressed,
    Released,
}

/// One configured key-set-to-action mapping. The key set must be
/// non-empty for the binding to ever fire; the processor skips bindings
/// with an empty set.
pub struct ShortcutBinding {
    pub keys: Vec<i32>,
    pub action: ShortcutAction,
    pub activation_mode: ActivationMode,
}

/// The ordered list of bindings the processor matches against. Earlier
/// bindings win when key sets overlap.
pub struct ShortcutRegistry {
    pub bindings: Vec<ShortcutBinding>,
}

impl ShortcutRegistry {
    /// An empty registry.
    pub fn new() -> (r: ShortcutRegistry)
        ensures
            r.bindings@.len() == 0,
    {
        ShortcutRegistry { bindings: Vec::new() }
    }

    /// Append a binding; it ranks below everything registered before it.
    pub fn add(&mut self, keys: Vec<i32>, action: ShortcutAction, activation_mode: ActivationMode)
        ensures
            final(self).bindings@.len() == old(self).bindings@.len() + 1,
            forall|i: int|
                0 <= i < old(self).bindings@.len() ==> final(self).bindings@[i]
                    == old(self).bindings@[i],
            final(self).bindings@.last().keys == keys,
            final(self).bindings@.last().action == action,
            final(self).bindings@.last().activation_mode == activation_mode,
    {
        self.bindings.push(ShortcutBinding { keys, action, activation_mode });
    }

    /// Build the standard registry from the configured key set of each
    /// action, in the fixed priority order: LLM record, standard record,
    /// command record, paste, then the mode-switch bindings. With that
    /// order, overlapping key sets resolve as LLM > standard > command,
    /// and recording outranks paste and mode switching.
    pub fn build(
        record_keys: Vec<i32>,
        llm_record_keys: Vec<i32>,
        command_keys: Vec<i32>,
        paste_keys: Vec<i32>,
        mode_switch_keys: Vec<Vec<i32>>,
        recording_mode: ActivationMode,
    ) -> (r: ShortcutRegistry)
        ensures
            r.bindings@.len() == 4 + mode_switch_keys@.len(),
            r.bindings@[0].keys == llm_record_keys,
            r.bindings@[0].action == ShortcutAction::StartRecordingLLM,
            r.bindings@[0].activation_mode == recording_mode,
            r.bindings@[1].keys == record_keys,
            r.bindings@[1].action == ShortcutAction::StartRecording,
            r.bindings@[1].activation_mode == recording_mode,
            r.bindings@[2].keys == command_keys,
            r.bindings@[2].action == ShortcutAction::StartRecordingCommand,
            r.bindings@[2].activation_mode == recording_mode,
            r.bindings@[3].keys == paste_keys,
            r.bindings@[3].action == ShortcutAction::PasteLastTranscript,
            r.bindings@[3].activation_mode == ActivationMode::PushToTalk,
            forall|i: int|
                #![trigger r.bindings@[4 + i]]
                0 <= i < mode_switch_keys@.len() ==> {
                    &&& r.bindings@[4 + i].keys == mode_switch_keys@[i]
                    &&& r.bindings@[4 + i].action == ShortcutAction::SwitchLLMMode(i as usize)
                    &&& r.bindings@[4 + i].activation_mode == ActivationMode::PushToTalk
                },
    {
        let mut r = ShortcutRegistry::new();
        r.add(llm_record_keys, ShortcutAction::StartRecordingLLM, recording_mode);
        r.add(record_keys, ShortcutAction::StartRecording, recording_mode);
        r.add(command_keys, ShortcutAction::StartRecordingCommand, recording_mode);
        r.add(paste_keys, ShortcutAction::PasteLastTranscript, ActivationMode::PushToTalk);
        let ghost all = mode_switch_keys@;
        let n = mode_switch_keys.len();
        let mut ks = mode_switch_keys;
        let mut i: usize = 0;
        while i < n
            invariant
                i <= n,
                n == all.len(),
                ks@ =~= all.subrange(i as int, n as int),
                r.bindings@.len() == 4 + i,
                r.bindings@[0].keys == llm_record_keys,
                r.bindings@[0].action == ShortcutAction::StartRecordingLLM,
                r.bindings@[0].activation_mode == recording_mode,
                r.bindings@[1].keys == record_keys,
                r.bindings@[1].action == ShortcutAction::StartRecording,
                r.bindings@[1].activation_mode == recording_mode,
                r.bindings@[2].keys == command_keys,
                r.bindings@[2].action == ShortcutAction::StartRecordingCommand,
                r.bindings@[2].activation_mode == recording_mode,
                r.bindings@[3].keys == paste_keys,
                r.bindings@[3].action == ShortcutAction::PasteLastTranscript,
                r.bindings@[3].activation_mode == ActivationMode::PushToTalk,
                forall|j: int|
                    #![trigger r.bindings@[4 + j]]
                    0 <= j < i ==> {
                        &&& r.bindings@[4 + j].keys == all[j]
                        &&& r.bindings@[4 + j].action == ShortcutAction::SwitchLLMMode(j as usize)
                        &&& r.bindings@[4 + j].activation_mode == ActivationMode::PushToTalk
                    },
            decreases n - i,
        {
            let keys = ks.remove(0);
            proof {
                assert(keys == all[i as int]);
                assert(ks@ =~= all.subrange(i + 1 as int, n as int));
            }
            r.add(keys, ShortcutAction::SwitchLLMMode(i), ActivationMode::PushToTalk);
            proof {
                assert(r.bindings@.last() == r.bindings@[4 + i as int]);
                assert forall|j: int|
                    #![trigger r.bindings@[4 + j]]
                    0 <= j < i + 1 implies {
                    &&& r.bindings@[4 + j].keys == all[j]
                    &&& r.bindings@[4 + j].action == ShortcutAction::SwitchLLMMode(j as usize)
                    &&& r.bindings@[4 + j].activation_mode == ActivationMode::PushToTalk
                } by {
                    if j == i {
                        assert(r.bindings@[4 + j] == r.bindings@.last());
                    }
                }
            }
            i = i + 1;
        }
        r
    }
}

} // verus!
