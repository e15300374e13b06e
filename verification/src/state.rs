//! The runtime-shared pieces of engine state: the suspension flag, the
//! toggle-mode flags, and the configured key set of each shortcut.
//!
//! The application owns one value of each and serializes access to it;
//! the engine reads them at the top of event processing.

use vstd::prelude::*;

verus! {

/// Suspension and toggle-mode state consulted on every event: while
/// `suspended` is set (for example while the user is typing a shortcut
/// into a settings field) all bindings are ignored.
pub struct ShortcutState {
    suspended: bool,
    toggle_required: bool,
    toggled: bool,
}

impl ShortcutState {
    pub closed spec fn spec_suspended(self) -> bool {
        self.suspended
    }

    pub closed spec fn spec_toggle_required(self) -> bool {
        self.toggle_required
    }

    pub closed spec fn spec_toggled(self) -> bool {
        self.toggled
    }

    pub fn new(suspended: bool, is_toggle_required: bool, is_toggled: bool) -> (r: ShortcutState)
        ensures
            r.spec_suspended() == suspended,
            r.spec_toggle_required() == is_toggle_required,
            r.spec_toggled() == is_toggled,
    {
        ShortcutState { suspended, toggle_required: is_toggle_required, toggled: is_toggled }
    }

    /// Whether event processing is suspended.
    pub fn is_suspended(&self) -> (r: bool)
        ensures
            r == self.spec_suspended(),
    {
        self.suspended
    }

    pub fn set_suspended(&mut self, value: bool)
        ensures
            final(self).spec_suspended() == value,
            final(self).spec_toggle_required() == old(self).spec_toggle_required(),
            final(self).spec_toggled() == old(self).spec_toggled(),
    {
        self.suspended = value;
    }

    /// Whether recordings activate in toggle-to-talk mode.
    pub fn is_toggle_required(&self) -> (r: bool)
        ensures
            r == self.spec_toggle_required(),
    {
        self.toggle_required
    }

    pub fn set_toggle_required(&mut self, value: bool)
        ensures
            final(self).spec_toggle_required() == value,
            final(self).spec_suspended() == old(self).spec_suspended(),
            final(self).spec_toggled() == old(self).spec_toggled(),
    {
        self.toggle_required = value;
    }

    /// Whether a toggle-to-talk recording is currently held open.
    pub fn is_toggled(&self) -> (r: bool)
        ensures
            r == self.spec_toggled(),
    {
        self.toggled
    }

    pub fn set_toggled(&mut self, value: bool)
        ensures
            final(self).spec_toggled() == value,
            final(self).spec_suspended() == old(self).spec_suspended(),
            final(self).spec_toggle_required() == old(self).spec_toggle_required(),
    {
        self.toggled = value;
    }
}

/// Whether transcription shortcuts are suspended, kept on its own for
/// the managed-registration path.
pub struct TranscriptionSuspended {
    suspended: bool,
}

impl TranscriptionSuspended {
    pub closed spec fn spec_value(self) -> bool {
        self.suspended
    }

    pub fn new(suspended: bool) -> (r: TranscriptionSuspended)
        ensures
            r.spec_value() == suspended,
    {
        TranscriptionSuspended { suspended }
    }

    pub fn get(&self) -> (r: bool)
        ensures
            r == self.spec_value(),
    {
        self.suspended
    }

    pub fn set(&mut self, value: bool)
        ensures
            final(self).spec_value() == value,
    {
        self.suspended = value;
    }
}

/// The key set of the standard recording shortcut.
pub struct RecordShortcutKeys {
    keys: Vec<i32>,
}

impl RecordShortcutKeys {
    pub closed spec fn spec_keys(self) -> Seq<i32> {
        self.keys@
    }

    pub fn new(keys: Vec<i32>) -> (r: RecordShortcutKeys)
        ensures
            r.spec_keys() == keys@,
    {
        RecordShortcutKeys { keys }
    }

    pub fn get(&self) -> (r: Vec<i32>)
        ensures
            r@ == self.spec_keys(),
    {
        let mut out: Vec<i32> = Vec::new();
        let mut i: usize = 0;
        while i < self.keys.len()
            invariant
                i <= self.keys@.len(),
                out@ == self.keys@.subrange(0, i as int),
            decreases self.keys@.len() - i,
        {
            out.push(self.keys[i]);
            proof {
                assert(out@ =~= self.keys@.subrange(0, i + 1 as int));
            }
            i = i + 1;
        }
        proof {
            assert(self.keys@.subrange(0, self.keys@.len() as int) =~= self.keys@);
        }
        out
    }

    pub fn set(&mut self, keys: Vec<i32>)
        ensures
            final(self).spec_keys() == keys@,
    {
        self.keys = keys;
    }
}

/// The key set of the paste-last-transcript shortcut.
pub struct LastTranscriptShortcutKeys {
    keys: Vec<i32>,
}

impl LastTranscriptShortcutKeys {
    pub closed spec fn spec_keys(self) -> Seq<i32> {
        self.keys@
    }

    pub fn new(keys: Vec<i32>) -> (r: LastTranscriptShortcutKeys)
        ensures
            r.spec_keys() == keys@,
    {
        LastTranscriptShortcutKeys { keys }
    }

    pub fn get(&self) -> (r: Vec<i32>)
        ensures
            r@ == self.spec_keys(),
    {
        let mut out: Vec<i32> = Vec::new();
        let mut i: usize = 0;
        while i < self.keys.len()
            invariant
                i <= self.keys@.len(),
                out@ == self.keys@.subrange(0, i as int),
            decreases self.keys@.len() - i,
        {
            out.push(self.keys[i]);
            proof {
                assert(out@ =~= self.keys@.subrange(0, i + 1 as int));
            }
            i = i + 1;
        }
        proof {
            assert(self.keys@.subrange(0, self.keys@.len() as int) =~= self.keys@);
        }
        out
    }

    pub fn set(&mut self, keys: Vec<i32>)
        ensures
            final(self).spec_keys() == keys@,
    {
        self.keys = keys;
    }
}

/// The key set of the LLM recording shortcut.
pub struct LLMRecordShortcutKeys {
    keys: Vec<i32>,
}

impl LLMRecordShortcutKeys {
    pub closed spec fn spec_keys(self) -> Seq<i32> {
        self.keys@
    }

    pub fn new(keys: Vec<i32>) -> (r: LLMRecordShortcutKeys)
        ensures
            r.spec_keys() == keys@,
    {
        LLMRecordShortcutKeys { keys }
    }

    pub fn get(&self) -> (r: Vec<i32>)
        ensures
            r@ == self.spec_keys(),
    {
        let mut out: Vec<i32> = Vec::new();
        let mut i: usize = 0;
        while i < self.keys.len()
            invariant
                i <= self.keys@.len(),
                out@ == self.keys@.subrange(0, i as int),
            decreases self.keys@.len() - i,
        {
            out.push(self.keys[i]);
            proof {
                assert(out@ =~= self.keys@.subrange(0, i + 1 as int));
            }
            i = i + 1;
        }
        proof {
            assert(self.keys@.subrange(0, self.keys@.len() as int) =~= self.keys@);
        }
        out
    }

    pub fn set(&mut self, keys: Vec<i32>)
        ensures
            final(self).spec_keys() == keys@,
    {
        self.keys = keys;
    }
}

} // verus!
