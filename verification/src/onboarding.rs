//! Onboarding bookkeeping around recordings: the focus snapshot taken
//! when a recording starts, and the decision which onboarding flag a
//! finished transcription marks.

use vstd::prelude::*;
use crate::settings::OnboardingState;

verus! {

/// Store the focus snapshot taken at shortcut-press time; it is
/// consumed when the transcription is written to history.
pub fn set_record_focus_at_start(slot: &mut Option<bool>, focused: bool)
    ensures
        *final(slot) == Some(focused),
{
    *slot = Some(focused);
}

/// Take the focus snapshot, leaving the slot empty, so that one
/// snapshot marks at most one transcription.
pub fn record_focus_at_start_take(slot: &mut Option<bool>) -> (r: Option<bool>)
    ensures
        r == *old(slot),
        *final(slot) is None,
{
    let r = *slot;
    *slot = None;
    r
}

/// Whether any onboarding task was completed before this write.
pub open spec fn spec_onboarding_started(s: OnboardingState) -> bool {
    s.used_home_shortcut || s.transcribed_outside_app || s.added_dictionary_word
}

/// Which flag a history write marks, given the focus snapshot captured
/// at record start (falling back to the focus state read now), and
/// whether an unfocused first use should still count as focused (the
/// platform quirk that avoids marking outside-app use on first launch).
pub open spec fn spec_mark_focused(
    s: OnboardingState,
    snapshot: Option<bool>,
    focused_now: bool,
    assume_focused_when_fresh: bool,
) -> bool {
    let base = match snapshot {
        Some(f) => f,
        None => focused_now,
    };
    if !spec_onboarding_started(s) && !base {
        assume_focused_when_fresh
    } else {
        base
    }
}

/// Update the onboarding record after a transcription was written to
/// history: a focused write marks the home-shortcut task, an unfocused
/// one marks the outside-app task; a flag already set stays set.
/// Returns whether anything changed, so the caller knows to persist.
pub fn mark_onboarding_on_history_write(
    state: &mut OnboardingState,
    snapshot: Option<bool>,
    focused_now: bool,
    assume_focused_when_fresh: bool,
) -> (changed: bool)
    ensures
        ({
            let focused = spec_mark_focused(*old(state), snapshot, focused_now,
                assume_focused_when_fresh);
            &&& final(state).used_home_shortcut == (old(state).used_home_shortcut || focused)
            &&& final(state).transcribed_outside_app == (old(state).transcribed_outside_app
                || !focused)
            &&& final(state).added_dictionary_word == old(state).added_dictionary_word
            &&& final(state).congrats_dismissed == old(state).congrats_dismissed
            &&& changed == (focused && !old(state).used_home_shortcut || !focused && !old(
                state).transcribed_outside_app)
        }),
{
    let started = state.used_home_shortcut || state.transcribed_outside_app
        || state.added_dictionary_word;
    let base = match snapshot {
        Some(f) => f,
        None => focused_now,
    };
    let focused = if !started && !base {
        assume_focused_when_fresh
    } else {
        base
    };
    let mut changed = false;
    if focused {
        if !state.used_home_shortcut {
            state.used_home_shortcut = true;
            changed = true;
        }
    } else {
        if !state.transcribed_outside_app {
            state.transcribed_outside_app = true;
            changed = true;
        }
    }
    changed
}

} // verus!
