//! The serialized core state machine: tracks the keys currently held
//! down, matches them against the binding registry, applies the
//! per-binding debounce, and emits one logical Pressed or Released edge
//! per physical key event.
//!
//! The processor is owned by the single consumer of the platform event
//! channel, so all of its state is mutated from one thread. Time enters
//! as a monotonic millisecond reading taken by the caller at event time.

use vstd::prelude::*;
use crate::registry::{ActivationMode, KeyEventType, ShortcutAction, ShortcutBinding,
    ShortcutRegistry};

verus! {

/// Milliseconds during which a binding that has fired cannot fire again;
/// suppresses re-triggering from OS key repeat.
pub const BINDING_DEBOUNCE_MS: u64 = 150;

/// A logical activation edge emitted by the processor: which registry
/// entry fired, what it does, and whether this is its press or release.
#[derive(Clone, Copy, Debug, PartialEq, Eq, Structural)]
pub struct FiredShortcut {
    pub index: usize,
    pub action: ShortcutAction,
    pub activation_mode: ActivationMode,
    pub edge: KeyEventType,
}

/// The processor state as contracts see it: the set of held keys, the
/// set of engaged binding indices, and the time each binding last fired.
#[verifier::ext_equal]
pub struct ProcessorModel {
    pub pressed: Set<i32>,
    pub active: Set<int>,
    pub last_trigger: Map<int, u64>,
}

/// A binding is matched when it has keys and every one of them is held.
pub open spec fn binding_matches(b: ShortcutBinding, pressed: Set<i32>) -> bool {
    &&& b.keys@.len() > 0
    &&& forall|j: int| 0 <= j < b.keys@.len() ==> pressed.contains(#[trigger] b.keys@[j])
}

/// The debounce guard: a binding may fire if it never fired before or if
/// the debounce window has elapsed since its last trigger.
pub open spec fn debounce_ok(m: ProcessorModel, i: int, now_ms: u64) -> bool {
    !m.last_trigger.dom().contains(i) || now_ms >= m.last_trigger[i] + BINDING_DEBOUNCE_MS
}

/// Binding `i` fires on this key-down: it is configured, not already
/// engaged, fully held, and out of its debounce window.
pub open spec fn can_fire(m: ProcessorModel, bindings: Seq<ShortcutBinding>, i: int, now_ms: u64) -> bool {
    &&& 0 <= i < bindings.len()
    &&& !m.active.contains(i)
    &&& binding_matches(bindings[i], m.pressed)
    &&& debounce_ok(m, i, now_ms)
}

/// The first binding index at or after `from` that can fire, if any.
pub open spec fn first_fireable_from(
    m: ProcessorModel,
    bindings: Seq<ShortcutBinding>,
    now_ms: u64,
    from: int,
) -> Option<int>
    decreases bindings.len() - from,
{
    if from < 0 || from >= bindings.len() {
        None
    } else if can_fire(m, bindings, from, now_ms) {
        Some(from)
    } else {
        first_fireable_from(m, bindings, now_ms, from + 1)
    }
}

/// Binding `i` must release: it is engaged but one of its keys is no
/// longer held.
pub open spec fn release_pending(m: ProcessorModel, bindings: Seq<ShortcutBinding>, i: int) -> bool {
    &&& 0 <= i < bindings.len()
    &&& m.active.contains(i)
    &&& exists|j: int| 0 <= j < bindings[i].keys@.len() && !m.pressed.contains(bindings[i].keys@[j])
}

/// The first binding index at or after `from` with a pending release.
pub open spec fn first_release_from(
    m: ProcessorModel,
    bindings: Seq<ShortcutBinding>,
    from: int,
) -> Option<int>
    decreases bindings.len() - from,
{
    if from < 0 || from >= bindings.len() {
        None
    } else if release_pending(m, bindings, from) {
        Some(from)
    } else {
        first_release_from(m, bindings, from + 1)
    }
}

/// The model after a raw key-down: the key joins the held set.
pub open spec fn spec_key_down(m: ProcessorModel, key: i32) -> ProcessorModel {
    ProcessorModel { pressed: m.pressed.insert(key), ..m }
}

/// The model after a raw key-up: the key leaves the held set.
pub open spec fn spec_key_up(m: ProcessorModel, key: i32) -> ProcessorModel {
    ProcessorModel { pressed: m.pressed.remove(key), ..m }
}

/// The model after binding `i` fires: it becomes engaged and its trigger
/// time is recorded.
pub open spec fn spec_fire(m: ProcessorModel, i: int, now_ms: u64) -> ProcessorModel {
    ProcessorModel {
        active: m.active.insert(i),
        last_trigger: m.last_trigger.insert(i, now_ms),
        ..m
    }
}

/// The model after binding `i` releases: it is no longer engaged.
pub open spec fn spec_release(m: ProcessorModel, i: int) -> ProcessorModel {
    ProcessorModel { active: m.active.remove(i), ..m }
}

/// The complete key-down transition. The held-key set is maintained even
/// while suspended, so that matching resumes consistently; binding
/// matching itself is skipped when suspended.
pub open spec fn spec_press_step(
    m: ProcessorModel,
    bindings: Seq<ShortcutBinding>,
    suspended: bool,
    key: i32,
    now_ms: u64,
) -> (ProcessorModel, Option<FiredShortcut>) {
    let after = spec_key_down(m, key);
    if suspended {
        (after, None)
    } else {
        match first_fireable_from(after, bindings, now_ms, 0) {
            Some(i) => (
                spec_fire(after, i, now_ms),
                Some(FiredShortcut {
                    index: i as usize,
                    action: bindings[i].action,
                    activation_mode: bindings[i].activation_mode,
                    edge: KeyEventType::Pressed,
                }),
            ),
            None => (after, None),
        }
    }
}

/// The complete key-up transition. The released key counts as up during
/// the scan, so releasing any key of an engaged binding releases that
/// binding at once.
pub open spec fn spec_release_step(
    m: ProcessorModel,
    bindings: Seq<ShortcutBinding>,
    suspended: bool,
    key: i32,
) -> (ProcessorModel, Option<FiredShortcut>) {
    let after = spec_key_up(m, key);
    if suspended {
        (after, None)
    } else {
        match first_release_from(after, bindings, 0) {
            Some(i) => (
                spec_release(after, i),
                Some(FiredShortcut {
                    index: i as usize,
                    action: bindings[i].action,
                    activation_mode: bindings[i].activation_mode,
                    edge: KeyEventType::Released,
                }),
            ),
            None => (after, None),
        }
    }
}

/// No element occurs twice.
pub open spec fn seq_no_dups<A>(s: Seq<A>) -> bool {
    forall|i: int, j: int| 0 <= i < j < s.len() ==> s[i] != s[j]
}

/// The set of binding indices held in a vector of engaged bindings.
pub open spec fn index_set(s: Seq<usize>) -> Set<int> {
    Set::new(|a: int| exists|j: int| 0 <= j < s.len() && s[j] == a)
}

/// Whether a vector of key codes holds the given key.
fn vec_contains_i32(v: &Vec<i32>, key: i32) -> (r: bool)
    ensures
        r == v@.contains(key),
{
    let mut i: usize = 0;
    while i < v.len()
        invariant
            i <= v@.len(),
            forall|j: int| 0 <= j < i ==> v@[j] != key,
        decreases v@.len() - i,
    {
        if v[i] == key {
            return true;
        }
        i = i + 1;
    }
    false
}

/// Whether a vector of binding indices holds the given index.
fn vec_contains_usize(v: &Vec<usize>, x: usize) -> (r: bool)
    ensures
        r == v@.contains(x),
{
    let mut i: usize = 0;
    while i < v.len()
        invariant
            i <= v@.len(),
            forall|j: int| 0 <= j < i ==> v@[j] != x,
        decreases v@.len() - i,
    {
        if v[i] == x {
            return true;
        }
        i = i + 1;
    }
    false
}

/// Whether every key of `keys` is in the held vector.
fn all_keys_held(keys: &Vec<i32>, held: &Vec<i32>) -> (r: bool)
    ensures
        r == forall|j: int| 0 <= j < keys@.len() ==> held@.to_set().contains(#[trigger] keys@[j]),
{
    let mut i: usize = 0;
    while i < keys.len()
        invariant
            i <= keys@.len(),
            forall|j: int| 0 <= j < i ==> held@.to_set().contains(#[trigger] keys@[j]),
        decreases keys@.len() - i,
    {
        if !vec_contains_i32(held, keys[i]) {
            return false;
        }
        i = i + 1;
    }
    true
}

/// The event processor. Holds the transient state of the matching
/// algorithm; the registry itself is shared and passed in per call.
pub struct EventProcessor {
    pressed_keys: Vec<i32>,
    active_bindings: Vec<usize>,
    last_trigger_times: Vec<Option<u64>>,
}

impl View for EventProcessor {
    type V = ProcessorModel;

    closed spec fn view(&self) -> ProcessorModel {
        ProcessorModel {
            pressed: self.pressed_keys@.to_set(),
            active: index_set(self.active_bindings@),
            last_trigger: Map::new(
                |i: int|
                    0 <= i < self.last_trigger_times@.len()
                        && self.last_trigger_times@[i] is Some,
                |i: int| self.last_trigger_times@[i]->0,
            ),
        }
    }
}

impl EventProcessor {
    /// Internal well-formedness: the held-key and engaged-binding vectors
    /// are duplicate-free, so they faithfully represent sets.
    pub closed spec fn wf(self) -> bool {
        &&& seq_no_dups(self.pressed_keys@)
        &&& seq_no_dups(self.active_bindings@)
    }

    /// A fresh processor: nothing held, nothing engaged, no binding has
    /// ever fired.
    pub fn new() -> (r: EventProcessor)
        ensures
            r.wf(),
            r@.pressed == Set::<i32>::empty(),
            r@.active == Set::<int>::empty(),
            r@.last_trigger == Map::<int, u64>::empty(),
    {
        let r = EventProcessor {
            pressed_keys: Vec::new(),
            active_bindings: Vec::new(),
            last_trigger_times: Vec::new(),
        };
        proof {
            assert(r@.pressed =~= Set::<i32>::empty());
            assert(r@.active =~= Set::<int>::empty());
            assert(r@.last_trigger =~= Map::<int, u64>::empty());
        }
        r
    }

    /// Record a raw key-down and fire at most one binding: the first in
    /// registry order that is fully held, not already engaged, and out of
    /// its debounce window. While suspended only the held-key set is
    /// maintained.
    pub fn on_key_press(
        &mut self,
        registry: &ShortcutRegistry,
        suspended: bool,
        key: i32,
        now_ms: u64,
    ) -> (r: Option<FiredShortcut>)
        requires
            old(self).wf(),
        ensures
            final(self).wf(),
            final(self)@ == spec_press_step(old(self)@, registry.bindings@, suspended, key, now_ms).0,
            r == spec_press_step(old(self)@, registry.bindings@, suspended, key, now_ms).1,
    {
        let ghost m0 = self@;
        if !vec_contains_i32(&self.pressed_keys, key) {
            let ghost p0 = self.pressed_keys@;
            self.pressed_keys.push(key);
            proof {
                broadcast use vstd::seq_lib::lemma_seq_contains_after_push;
                assert(seq_no_dups(self.pressed_keys@)) by {
                    assert(forall|j: int| 0 <= j < p0.len() ==> self.pressed_keys@[j] == p0[j]);
                }
            }
        }
        let ghost after = spec_key_down(m0, key);
        proof {
            broadcast use vstd::seq_lib::lemma_seq_contains_after_push;
            assert(self@.pressed =~= after.pressed);
            assert(self@ =~= after);
        }
        if suspended {
            return None;
        }
        let n = registry.bindings.len();
        let mut i: usize = 0;
        while i < n
            invariant
                self.wf(),
                after == spec_key_down(old(self)@, key),
                !suspended,
                after.pressed == self.pressed_keys@.to_set(),
                after.active == index_set(self.active_bindings@),
                after.last_trigger == Map::new(
                    |j: int|
                        0 <= j < self.last_trigger_times@.len()
                            && self.last_trigger_times@[j] is Some,
                    |j: int| self.last_trigger_times@[j]->0,
                ),
                self@ == after,
                i <= n,
                n == registry.bindings@.len(),
                first_fireable_from(after, registry.bindings@, now_ms, 0)
                    == first_fireable_from(after, registry.bindings@, now_ms, i as int),
            decreases n - i,
        {
            let b = &registry.bindings[i];
            let engaged = vec_contains_usize(&self.active_bindings, i);
            proof {
                assert(self.active_bindings@.contains(i) == after.active.contains(i as int)) by {
                    if self.active_bindings@.contains(i) {
                        let w = choose|w: int|
                            0 <= w < self.active_bindings@.len() && self.active_bindings@[w] == i;
                        assert(index_set(self.active_bindings@).contains(i as int));
                    }
                }
            }
            let mut fires = b.keys.len() > 0 && !engaged;
            if fires {
                fires = all_keys_held(&b.keys, &self.pressed_keys);
            }
            if fires {
                // The debounce guard over the recorded trigger times.
                if i < self.last_trigger_times.len() {
                    if let Some(t) = self.last_trigger_times[i] {
                        proof {
                            assert(after.last_trigger.dom().contains(i as int));
                            assert(after.last_trigger[i as int] == t);
                        }
                        fires = now_ms >= t && now_ms - t >= BINDING_DEBOUNCE_MS;
                    } else {
                        proof {
                            assert(!after.last_trigger.dom().contains(i as int));
                        }
                    }
                } else {
                    proof {
                        assert(!after.last_trigger.dom().contains(i as int));
                    }
                }
            }
            proof {
                assert(fires == can_fire(after, registry.bindings@, i as int, now_ms));
            }
            if fires {
                proof {
                    assert(first_fireable_from(after, registry.bindings@, now_ms, i as int)
                        == Some(i as int));
                }
                let ghost v0 = self.last_trigger_times@;
                while self.last_trigger_times.len() <= i
                    invariant
                        self.wf(),
                        after.pressed == self.pressed_keys@.to_set(),
                        after.active == index_set(self.active_bindings@),
                        v0.len() <= self.last_trigger_times@.len(),
                        forall|j: int| 0 <= j < v0.len()
                            ==> self.last_trigger_times@[j] == v0[j],
                        forall|j: int|
                            v0.len() <= j < self.last_trigger_times@.len()
                                ==> self.last_trigger_times@[j] is None,
                    decreases i + 1 - self.last_trigger_times@.len(),
                {
                    self.last_trigger_times.push(None);
                }
                proof {
                    // Padding with empty slots leaves the recorded times
                    // unchanged.
                    assert(Map::new(
                        |j: int|
                            0 <= j < self.last_trigger_times@.len()
                                && self.last_trigger_times@[j] is Some,
                        |j: int| self.last_trigger_times@[j]->0,
                    ) =~= after.last_trigger);
                }
                let ghost v1 = self.last_trigger_times@;
                self.last_trigger_times.set(i, Some(now_ms));
                proof {
                    assert(self@.last_trigger =~= after.last_trigger.insert(i as int, now_ms)) by {
                        assert(Map::new(
                            |j: int| 0 <= j < v1.len() && v1[j] is Some,
                            |j: int| v1[j]->0,
                        ) == after.last_trigger);
                        assert(forall|j: int|
                            0 <= j < v1.len() && j != i ==> self.last_trigger_times@[j] == v1[j]);
                        assert(self.last_trigger_times@[i as int] == Some(now_ms));
                    }
                }
                let ghost act0 = self.active_bindings@;
                self.active_bindings.push(i);
                proof {
                    assert(after.active == index_set(act0));
                    assert(self@.active =~= after.active.insert(i as int)) by {
                        assert forall|a: int|
                            #![trigger index_set(self.active_bindings@).contains(a)]
                            #![trigger after.active.insert(i as int).contains(a)]
                            index_set(self.active_bindings@).contains(a) <==> after.active.insert(
                            i as int).contains(a) by {
                            let cur = self.active_bindings@;
                            if index_set(cur).contains(a) {
                                let w = choose|w: int| 0 <= w < cur.len() && cur[w] == a;
                                if w < act0.len() {
                                    assert(act0[w] == a);
                                    assert(index_set(act0).contains(a));
                                } else {
                                    assert(a == i as int);
                                }
                            }
                            if index_set(act0).contains(a) {
                                let w = choose|w: int| 0 <= w < act0.len() && act0[w] == a;
                                assert(cur[w] == a);
                                assert(index_set(cur).contains(a));
                            }
                            if a == i as int {
                                assert(cur[act0.len() as int] == i);
                                assert(index_set(cur).contains(a));
                            }
                        }
                    }
                    assert(self@.pressed == after.pressed);
                    assert(self@ =~= spec_fire(after, i as int, now_ms));
                    assert(seq_no_dups(self.active_bindings@)) by {
                        assert(!act0.contains(i)) by {
                            if act0.contains(i) {
                                let w = choose|w: int| 0 <= w < act0.len() && act0[w] == i;
                                assert(index_set(act0).contains(i as int));
                            }
                        }
                        assert(forall|j: int| 0 <= j < act0.len()
                            ==> self.active_bindings@[j] == act0[j]);
                    }
                    assert(self.wf());
                }
                return Some(
                    FiredShortcut {
                        index: i,
                        action: b.action,
                        activation_mode: b.activation_mode,
                        edge: KeyEventType::Pressed,
                    },
                );
            }
            i = i + 1;
        }
        proof {
            assert(first_fireable_from(after, registry.bindings@, now_ms, n as int) is None);
        }
        None
    }

    /// Record a raw key-up and release at most one binding: the first in
    /// registry order that is engaged and no longer fully held. The
    /// released key counts as up during the scan, so releasing any key of
    /// an engaged combo releases it at once. While suspended only the
    /// held-key set is maintained.
    pub fn on_key_release(
        &mut self,
        registry: &ShortcutRegistry,
        suspended: bool,
        key: i32,
    ) -> (r: Option<FiredShortcut>)
        requires
            old(self).wf(),
        ensures
            final(self).wf(),
            final(self)@ == spec_release_step(old(self)@, registry.bindings@, suspended, key).0,
            r == spec_release_step(old(self)@, registry.bindings@, suspended, key).1,
    {
        let ghost m0 = self@;
        let mut found = false;
        let mut w: usize = 0;
        while w < self.pressed_keys.len() && !found
            invariant
                self.wf(),
                self@ == m0,
                w <= self.pressed_keys@.len(),
                !found ==> forall|j: int| 0 <= j < w ==> self.pressed_keys@[j] != key,
                found ==> w < self.pressed_keys@.len() && self.pressed_keys@[w as int] == key,
            decreases self.pressed_keys@.len() - w + (if found { 0int } else { 1int }),
        {
            if self.pressed_keys[w] == key {
                found = true;
            } else {
                w = w + 1;
            }
        }
        if found {
            let ghost p0 = self.pressed_keys@;
            self.pressed_keys.remove(w);
            proof {
                assert(seq_no_dups(self.pressed_keys@)) by {
                    assert(forall|j: int|
                        0 <= j < self.pressed_keys@.len() ==> self.pressed_keys@[j] == (if j
                            < w { p0[j] } else { p0[j + 1] }));
                }
                assert(self@.pressed =~= m0.pressed.remove(key)) by {
                    assert forall|a: i32|
                        #![trigger self@.pressed.contains(a)]
                        #![trigger m0.pressed.remove(key).contains(a)]
                        self@.pressed.contains(a) <==> m0.pressed.remove(key).contains(a) by {
                        let cur = self.pressed_keys@;
                        if cur.contains(a) {
                            let u = choose|u: int| 0 <= u < cur.len() && cur[u] == a;
                            if u < w {
                                assert(p0[u] == a);
                            } else {
                                assert(p0[u + 1] == a);
                            }
                            assert(p0.contains(a));
                            assert(a != key) by {
                                if a == key {
                                    if u < w {
                                        assert(p0[u] == key && p0[w as int] == key);
                                    } else {
                                        assert(p0[u + 1] == key && p0[w as int] == key);
                                    }
                                }
                            }
                        }
                        if p0.contains(a) && a != key {
                            let u = choose|u: int| 0 <= u < p0.len() && p0[u] == a;
                            if u < w {
                                assert(cur[u] == a);
                            } else {
                                assert(u != w);
                                assert(cur[u - 1] == a);
                            }
                            assert(cur.contains(a));
                        }
                    }
                }
            }
        } else {
            proof {
                assert(!m0.pressed.contains(key));
                assert(self@.pressed =~= m0.pressed.remove(key));
            }
        }
        let ghost after = spec_key_up(m0, key);
        proof {
            assert(self@ =~= after);
        }
        if suspended {
            return None;
        }
        let n = registry.bindings.len();
        let mut i: usize = 0;
        while i < n
            invariant
                self.wf(),
                after == spec_key_up(old(self)@, key),
                !suspended,
                after.pressed == self.pressed_keys@.to_set(),
                after.active == index_set(self.active_bindings@),
                after.last_trigger == Map::new(
                    |j: int|
                        0 <= j < self.last_trigger_times@.len()
                            && self.last_trigger_times@[j] is Some,
                    |j: int| self.last_trigger_times@[j]->0,
                ),
                self@ == after,
                i <= n,
                n == registry.bindings@.len(),
                first_release_from(after, registry.bindings@, 0)
                    == first_release_from(after, registry.bindings@, i as int),
            decreases n - i,
        {
            let b = &registry.bindings[i];
            let engaged = vec_contains_usize(&self.active_bindings, i);
            proof {
                assert(self.active_bindings@.contains(i) == after.active.contains(i as int)) by {
                    if self.active_bindings@.contains(i) {
                        let u = choose|u: int|
                            0 <= u < self.active_bindings@.len() && self.active_bindings@[u] == i;
                        assert(index_set(self.active_bindings@).contains(i as int));
                    }
                }
            }
            let mut releases = false;
            if engaged {
                releases = !all_keys_held(&b.keys, &self.pressed_keys);
            }
            proof {
                assert(releases == release_pending(after, registry.bindings@, i as int));
            }
            if releases {
                proof {
                    assert(first_release_from(after, registry.bindings@, i as int)
                        == Some(i as int));
                }
                let mut u: usize = 0;
                let mut located = false;
                let ghost act0 = self.active_bindings@;
                while u < self.active_bindings.len() && !located
                    invariant
                        act0 == self.active_bindings@,
                        u <= act0.len(),
                        !located ==> forall|j: int| 0 <= j < u ==> act0[j] != i,
                        located ==> u < act0.len() && act0[u as int] == i,
                        act0.contains(i),
                    decreases act0.len() - u + (if located { 0int } else { 1int }),
                {
                    if self.active_bindings[u] == i {
                        located = true;
                    } else {
                        u = u + 1;
                    }
                }
                proof {
                    assert(u < act0.len() && act0[u as int] == i) by {
                        if !located {
                            let x = choose|x: int| 0 <= x < act0.len() && act0[x] == i;
                        }
                    }
                }
                self.active_bindings.remove(u);
                proof {
                    assert(seq_no_dups(self.active_bindings@)) by {
                        assert(forall|j: int|
                            0 <= j < self.active_bindings@.len()
                                ==> self.active_bindings@[j] == (if j < u {
                                act0[j]
                            } else {
                                act0[j + 1]
                            }));
                    }
                    assert(self@.active =~= after.active.remove(i as int)) by {
                        assert forall|a: int|
                            #![trigger index_set(self.active_bindings@).contains(a)]
                            #![trigger after.active.remove(i as int).contains(a)]
                            index_set(self.active_bindings@).contains(a) <==> after.active.remove(
                            i as int).contains(a) by {
                            let cur = self.active_bindings@;
                            if index_set(cur).contains(a) {
                                let x = choose|x: int| 0 <= x < cur.len() && cur[x] == a;
                                if x < u {
                                    assert(act0[x] == a);
                                } else {
                                    assert(act0[x + 1] == a);
                                }
                                assert(index_set(act0).contains(a));
                                assert(a != i as int) by {
                                    if a == i as int {
                                        if x < u {
                                            assert(act0[x] == i && act0[u as int] == i);
                                        } else {
                                            assert(act0[x + 1] == i && act0[u as int] == i);
                                        }
                                    }
                                }
                            }
                            if index_set(act0).contains(a) && a != i as int {
                                let x = choose|x: int| 0 <= x < act0.len() && act0[x] == a;
                                if x < u {
                                    assert(cur[x] == a);
                                } else {
                                    assert(x != u);
                                    assert(cur[x - 1] == a);
                                }
                                assert(index_set(cur).contains(a));
                            }
                        }
                    }
                    assert(self@ =~= spec_release(after, i as int));
                    assert(self.wf());
                }
                return Some(
                    FiredShortcut {
                        index: i,
                        action: b.action,
                        activation_mode: b.activation_mode,
                        edge: KeyEventType::Released,
                    },
                );
            }
            i = i + 1;
        }
        proof {
            assert(first_release_from(after, registry.bindings@, n as int) is None);
        }
        None
    }

    /// Dispatch one raw key event to the press or release transition.
    pub fn handle_event(
        &mut self,
        registry: &ShortcutRegistry,
        suspended: bool,
        key: i32,
        edge: KeyEventType,
        now_ms: u64,
    ) -> (r: Option<FiredShortcut>)
        requires
            old(self).wf(),
        ensures
            final(self).wf(),
            edge == KeyEventType::Pressed ==> {
                &&& final(self)@ == spec_press_step(old(self)@, registry.bindings@, suspended,
                    key, now_ms).0
                &&& r == spec_press_step(old(self)@, registry.bindings@, suspended, key,
                    now_ms).1
            },
            edge == KeyEventType::Released ==> {
                &&& final(self)@ == spec_release_step(old(self)@, registry.bindings@, suspended,
                    key).0
                &&& r == spec_release_step(old(self)@, registry.bindings@, suspended, key).1
            },
    {
        match edge {
            KeyEventType::Pressed => self.on_key_press(registry, suspended, key, now_ms),
            KeyEventType::Released => self.on_key_release(registry, suspended, key),
        }
    }
}

/// A `Some` result of the fireable scan points at a binding that can
/// fire, and at the first such binding at or after `from`.
pub proof fn lemma_first_fireable_some(
    m: ProcessorModel,
    bindings: Seq<ShortcutBinding>,
    now_ms: u64,
    from: int,
    i: int,
)
    requires
        first_fireable_from(m, bindings, now_ms, from) == Some(i),
    ensures
        from <= i < bindings.len(),
        can_fire(m, bindings, i, now_ms),
        forall|j: int| from <= j < i ==> !can_fire(m, bindings, j, now_ms),
    decreases bindings.len() - from,
{
    if 0 <= from < bindings.len() && !can_fire(m, bindings, from, now_ms) {
        lemma_first_fireable_some(m, bindings, now_ms, from + 1, i);
    }
}

/// The fireable scan finds a binding that can fire when none before it
/// can.
pub proof fn lemma_first_fireable_found(
    m: ProcessorModel,
    bindings: Seq<ShortcutBinding>,
    now_ms: u64,
    from: int,
    i: int,
)
    requires
        0 <= from <= i,
        can_fire(m, bindings, i, now_ms),
        forall|j: int| from <= j < i ==> !can_fire(m, bindings, j, now_ms),
    ensures
        first_fireable_from(m, bindings, now_ms, from) == Some(i),
    decreases i - from,
{
    if from < i {
        lemma_first_fireable_found(m, bindings, now_ms, from + 1, i);
    }
}

/// A `Some` result of the release scan points at the first binding with
/// a pending release at or after `from`.
pub proof fn lemma_first_release_some(
    m: ProcessorModel,
    bindings: Seq<ShortcutBinding>,
    from: int,
    i: int,
)
    requires
        first_release_from(m, bindings, from) == Some(i),
    ensures
        from <= i < bindings.len(),
        release_pending(m, bindings, i),
        forall|j: int| from <= j < i ==> !release_pending(m, bindings, j),
    decreases bindings.len() - from,
{
    if 0 <= from < bindings.len() && !release_pending(m, bindings, from) {
        lemma_first_release_some(m, bindings, from + 1, i);
    }
}

/// The release scan finds a binding with a pending release when none
/// before it has one.
pub proof fn lemma_first_release_found(
    m: ProcessorModel,
    bindings: Seq<ShortcutBinding>,
    from: int,
    i: int,
)
    requires
        0 <= from <= i,
        release_pending(m, bindings, i),
        forall|j: int| from <= j < i ==> !release_pending(m, bindings, j),
    ensures
        first_release_from(m, bindings, from) == Some(i),
    decreases i - from,
{
    if from < i {
        lemma_first_release_found(m, bindings, from + 1, i);
    }
}

/// A key-down fires exactly the first binding whose whole key set is
/// held once the key goes down, which is not yet engaged and is out of
/// its debounce window: the binding becomes engaged, its trigger time is
/// recorded, and exactly one Pressed edge for its action is emitted.
pub proof fn lemma_press_fires_first_match(
    m: ProcessorModel,
    bindings: Seq<ShortcutBinding>,
    key: i32,
    now_ms: u64,
    i: int,
)
    requires
        can_fire(spec_key_down(m, key), bindings, i, now_ms),
        forall|j: int| 0 <= j < i ==> !can_fire(spec_key_down(m, key), bindings, j, now_ms),
    ensures
        ({
            let (m2, fired) = spec_press_step(m, bindings, false, key, now_ms);
            &&& fired == Some(FiredShortcut {
                index: i as usize,
                action: bindings[i].action,
                activation_mode: bindings[i].activation_mode,
                edge: KeyEventType::Pressed,
            })
            &&& m2 == spec_fire(spec_key_down(m, key), i, now_ms)
            &&& m2.active.contains(i)
            &&& m2.last_trigger[i] == now_ms
        }),
{
    lemma_first_fireable_found(spec_key_down(m, key), bindings, now_ms, 0, i);
}

/// A binding that is already engaged never fires again on a key-down:
/// at most one Pressed edge is emitted per engagement, whatever keys go
/// down while the combo is held.
pub proof fn lemma_engaged_binding_does_not_refire(
    m: ProcessorModel,
    bindings: Seq<ShortcutBinding>,
    key: i32,
    now_ms: u64,
    i: int,
)
    requires
        bindings.len() <= usize::MAX,
        m.active.contains(i),
    ensures
        ({
            let (m2, fired) = spec_press_step(m, bindings, false, key, now_ms);
            &&& fired matches Some(f) ==> f.index as int != i
            &&& m2.active.contains(i)
        }),
{
    let after = spec_key_down(m, key);
    match first_fireable_from(after, bindings, now_ms, 0) {
        Some(j) => {
            lemma_first_fireable_some(after, bindings, now_ms, 0, j);
        },
        None => {},
    }
}

/// Releasing any key of an engaged binding releases that binding, when
/// no earlier engaged binding is also broken by the key-up: exactly one
/// matching Released edge is emitted and the binding disengages.
pub proof fn lemma_release_fires_matching(
    m: ProcessorModel,
    bindings: Seq<ShortcutBinding>,
    key: i32,
    i: int,
)
    requires
        release_pending(spec_key_up(m, key), bindings, i),
        forall|j: int| 0 <= j < i ==> !release_pending(spec_key_up(m, key), bindings, j),
    ensures
        ({
            let (m2, fired) = spec_release_step(m, bindings, false, key);
            &&& fired == Some(FiredShortcut {
                index: i as usize,
                action: bindings[i].action,
                activation_mode: bindings[i].activation_mode,
                edge: KeyEventType::Released,
            })
            &&& m2 == spec_release(spec_key_up(m, key), i)
            &&& !m2.active.contains(i)
        }),
{
    lemma_first_release_found(spec_key_up(m, key), bindings, 0, i);
}

/// A binding that is not engaged never emits a Released edge: each
/// Pressed edge is matched by at most one Released edge.
pub proof fn lemma_disengaged_binding_does_not_release(
    m: ProcessorModel,
    bindings: Seq<ShortcutBinding>,
    key: i32,
    i: int,
)
    requires
        bindings.len() <= usize::MAX,
        !m.active.contains(i),
    ensures
        ({
            let (m2, fired) = spec_release_step(m, bindings, false, key);
            fired matches Some(f) ==> f.index as int != i
        }),
{
    let after = spec_key_up(m, key);
    match first_release_from(after, bindings, 0) {
        Some(j) => {
            lemma_first_release_some(after, bindings, 0, j);
        },
        None => {},
    }
}

/// While suspended, a key event maintains the held-key set and does
/// nothing else: no binding fires or releases, and the engaged set and
/// trigger times stay as they are, so matching resumes consistently
/// when the processor is unsuspended.
pub proof fn lemma_suspended_events_are_inert(
    m: ProcessorModel,
    bindings: Seq<ShortcutBinding>,
    key: i32,
    now_ms: u64,
)
    ensures
        spec_press_step(m, bindings, true, key, now_ms) == (
            spec_key_down(m, key),
            None::<FiredShortcut>,
        ),
        spec_release_step(m, bindings, true, key) == (
            spec_key_up(m, key),
            None::<FiredShortcut>,
        ),
        spec_key_down(m, key).active == m.active,
        spec_key_down(m, key).last_trigger == m.last_trigger,
        spec_key_up(m, key).active == m.active,
        spec_key_up(m, key).last_trigger == m.last_trigger,
{
}

/// The debounce guard: a binding that fired less than the debounce
/// window ago does not fire again, whatever key goes down. Two Pressed
/// edges of one binding are therefore always at least the window apart.
pub proof fn lemma_debounce_blocks_refire(
    m: ProcessorModel,
    bindings: Seq<ShortcutBinding>,
    key: i32,
    now_ms: u64,
    i: int,
)
    requires
        bindings.len() <= usize::MAX,
        m.last_trigger.dom().contains(i),
        now_ms < m.last_trigger[i] + BINDING_DEBOUNCE_MS,
    ensures
        ({
            let (m2, fired) = spec_press_step(m, bindings, false, key, now_ms);
            fired matches Some(f) ==> f.index as int != i
        }),
{
    let after = spec_key_down(m, key);
    match first_fireable_from(after, bindings, now_ms, 0) {
        Some(j) => {
            lemma_first_fireable_some(after, bindings, now_ms, 0, j);
        },
        None => {},
    }
}

/// Two key-down edges that would fire the same binding within one
/// debounce window produce only one activation: after a press fires the
/// binding, a second press less than the window later never fires it
/// again, even if the binding was released in between.
pub proof fn lemma_two_presses_one_activation(
    m: ProcessorModel,
    m2: ProcessorModel,
    bindings: Seq<ShortcutBinding>,
    first_key: i32,
    first_ms: u64,
    second_key: i32,
    second_ms: u64,
    i: int,
)
    requires
        bindings.len() <= usize::MAX,
        spec_press_step(m, bindings, false, first_key, first_ms).1 matches Some(f)
            && f.index as int == i,
        // Whatever happened in between left the binding's trigger time
        // alone, as every step but a fire of the same binding does.
        m2.last_trigger[i] == spec_press_step(m, bindings, false, first_key, first_ms)
            .0.last_trigger[i],
        m2.last_trigger.dom().contains(i),
        second_ms < first_ms + BINDING_DEBOUNCE_MS,
    ensures
        ({
            let (_, fired) = spec_press_step(m2, bindings, false, second_key, second_ms);
            fired matches Some(f) ==> f.index as int != i
        }),
{
    let after = spec_key_down(m, first_key);
    match first_fireable_from(after, bindings, first_ms, 0) {
        Some(j) => {
            lemma_first_fireable_some(after, bindings, first_ms, 0, j);
            assert(j == i);
            assert(spec_press_step(m, bindings, false, first_key, first_ms).0.last_trigger[i]
                == first_ms);
            lemma_debounce_blocks_refire(m2, bindings, second_key, second_ms, i);
        },
        None => {},
    }
}

} // verus!
