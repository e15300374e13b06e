//! Formatting a portable key set as an OS hotkey description, the
//! `"Control+Shift+KeyR"` form the managed global-shortcut registration
//! path consumes. A describable binding holds any number of modifiers
//! and exactly one nameable main key.

use vstd::prelude::*;
use vstd::string::StringExecFns;
use crate::keys::{VK_ALT, VK_ARROW_DOWN, VK_ARROW_LEFT, VK_ARROW_RIGHT, VK_ARROW_UP,
    VK_BACKSPACE, VK_CONTROL, VK_DELETE, VK_END, VK_ENTER, VK_ESCAPE, VK_HOME, VK_INSERT,
    VK_PAGE_DOWN, VK_PAGE_UP, VK_SHIFT, VK_SPACE, VK_SUPER, VK_TAB, is_modifier_vk};

verus! {

/// The hotkey name of a main (non-modifier) key, if it has one.
pub open spec fn spec_vk_hotkey(vk: i32) -> Option<Seq<char>> {
    if 0x41 <= vk && vk <= 0x5A {
        Some("Key"@ + seq![((vk - 0x41 + 65) as u8) as char])
    } else if 0x30 <= vk && vk <= 0x39 {
        Some("Digit"@ + seq![((vk - 0x30 + 48) as u8) as char])
    } else if 0x70 <= vk && vk <= 0x78 {
        Some(seq!['F', ((vk - 0x70 + 49) as u8) as char])
    } else if 0x79 <= vk && vk <= 0x7B {
        Some(seq!['F', '1', ((vk - 0x79 + 48) as u8) as char])
    } else if vk == VK_SPACE {
        Some("Space"@)
    } else if vk == VK_ENTER {
        Some("Enter"@)
    } else if vk == VK_ESCAPE {
        Some("Escape"@)
    } else if vk == VK_TAB {
        Some("Tab"@)
    } else if vk == VK_BACKSPACE {
        Some("Backspace"@)
    } else if vk == VK_DELETE {
        Some("Delete"@)
    } else if vk == VK_INSERT {
        Some("Insert"@)
    } else if vk == VK_HOME {
        Some("Home"@)
    } else if vk == VK_END {
        Some("End"@)
    } else if vk == VK_PAGE_UP {
        Some("PageUp"@)
    } else if vk == VK_PAGE_DOWN {
        Some("PageDown"@)
    } else if vk == VK_ARROW_UP {
        Some("ArrowUp"@)
    } else if vk == VK_ARROW_DOWN {
        Some("ArrowDown"@)
    } else if vk == VK_ARROW_LEFT {
        Some("ArrowLeft"@)
    } else if vk == VK_ARROW_RIGHT {
        Some("ArrowRight"@)
    } else {
        None
    }
}

/// The hotkey name of a main key, or `None` for modifiers and unmapped
/// codes.
pub fn vk_to_hotkey_key(vk: i32) -> (r: Option<String>)
    ensures
        r is Some <==> spec_vk_hotkey(vk) is Some,
        r matches Some(h) ==> spec_vk_hotkey(vk) == Some(h@),
{
    if 0x41 <= vk && vk <= 0x5A {
        let mut h = String::from_str("Key");
        h.push(((vk - 0x41 + 65) as u8) as char);
        proof {
            assert(h@ =~= "Key"@ + seq![((vk - 0x41 + 65) as u8) as char]);
        }
        Some(h)
    } else if 0x30 <= vk && vk <= 0x39 {
        let mut h = String::from_str("Digit");
        h.push(((vk - 0x30 + 48) as u8) as char);
        proof {
            assert(h@ =~= "Digit"@ + seq![((vk - 0x30 + 48) as u8) as char]);
        }
        Some(h)
    } else if 0x70 <= vk && vk <= 0x78 {
        let mut h = String::new();
        h.push('F');
        h.push(((vk - 0x70 + 49) as u8) as char);
        proof {
            assert(h@ =~= seq!['F', ((vk - 0x70 + 49) as u8) as char]);
        }
        Some(h)
    } else if 0x79 <= vk && vk <= 0x7B {
        let mut h = String::new();
        h.push('F');
        h.push('1');
        h.push(((vk - 0x79 + 48) as u8) as char);
        proof {
            assert(h@ =~= seq!['F', '1', ((vk - 0x79 + 48) as u8) as char]);
        }
        Some(h)
    } else if vk == VK_SPACE {
        Some(String::from_str("Space"))
    } else if vk == VK_ENTER {
        Some(String::from_str("Enter"))
    } else if vk == VK_ESCAPE {
        Some(String::from_str("Escape"))
    } else if vk == VK_TAB {
        Some(String::from_str("Tab"))
    } else if vk == VK_BACKSPACE {
        Some(String::from_str("Backspace"))
    } else if vk == VK_DELETE {
        Some(String::from_str("Delete"))
    } else if vk == VK_INSERT {
        Some(String::from_str("Insert"))
    } else if vk == VK_HOME {
        Some(String::from_str("Home"))
    } else if vk == VK_END {
        Some(String::from_str("End"))
    } else if vk == VK_PAGE_UP {
        Some(String::from_str("PageUp"))
    } else if vk == VK_PAGE_DOWN {
        Some(String::from_str("PageDown"))
    } else if vk == VK_ARROW_UP {
        Some(String::from_str("ArrowUp"))
    } else if vk == VK_ARROW_DOWN {
        Some(String::from_str("ArrowDown"))
    } else if vk == VK_ARROW_LEFT {
        Some(String::from_str("ArrowLeft"))
    } else if vk == VK_ARROW_RIGHT {
        Some(String::from_str("ArrowRight"))
    } else {
        None
    }
}

/// How many keys of the set are main (non-modifier) keys.
pub open spec fn nonmod_count(ks: Seq<i32>) -> int
    decreases ks.len(),
{
    if ks.len() == 0 {
        0
    } else {
        (if is_modifier_vk(ks[0]) {
            0int
        } else {
            1int
        }) + nonmod_count(ks.drop_first())
    }
}

/// The first main key of the set, if any.
pub open spec fn first_nonmod(ks: Seq<i32>) -> Option<i32>
    decreases ks.len(),
{
    if ks.len() == 0 {
        None
    } else if !is_modifier_vk(ks[0]) {
        Some(ks[0])
    } else {
        first_nonmod(ks.drop_first())
    }
}

/// Counting and first-main-key search distribute over concatenation.
pub proof fn lemma_nonmod_concat(a: Seq<i32>, b: Seq<i32>)
    ensures
        nonmod_count(a + b) == nonmod_count(a) + nonmod_count(b),
        first_nonmod(a + b) == if first_nonmod(a) is Some {
            first_nonmod(a)
        } else {
            first_nonmod(b)
        },
    decreases a.len(),
{
    if a.len() == 0 {
        assert(a + b =~= b);
    } else {
        assert((a + b)[0] == a[0]);
        assert((a + b).drop_first() =~= a.drop_first() + b);
        lemma_nonmod_concat(a.drop_first(), b);
    }
}

/// The hotkey description of a key set: its modifiers in the fixed
/// order Control, Shift, Alt, Super, then the name of its single main
/// key. A set without exactly one nameable main key has no description.
pub open spec fn spec_binding_to_hotkey(ks: Seq<i32>) -> Option<Seq<char>> {
    if ks.len() == 0 || nonmod_count(ks) != 1 {
        None
    } else {
        match spec_vk_hotkey(first_nonmod(ks)->0) {
            None => None,
            Some(name) => Some(
                (if ks.contains(VK_CONTROL) {
                    "Control+"@
                } else {
                    Seq::empty()
                }) + (if ks.contains(VK_SHIFT) {
                    "Shift+"@
                } else {
                    Seq::empty()
                }) + (if ks.contains(VK_ALT) {
                    "Alt+"@
                } else {
                    Seq::empty()
                }) + (if ks.contains(VK_SUPER) {
                    "Super+"@
                } else {
                    Seq::empty()
                }) + name,
            ),
        }
    }
}

/// Describe a key set as an OS hotkey string, or `None` when the set is
/// empty, has more or fewer than one main key, or its main key has no
/// hotkey name.
pub fn binding_to_hotkey(keys: &Vec<i32>) -> (r: Option<String>)
    ensures
        r is Some <==> spec_binding_to_hotkey(keys@) is Some,
        r matches Some(h) ==> spec_binding_to_hotkey(keys@) == Some(h@),
{
    if keys.len() == 0 {
        return None;
    }
    let mut has_control = false;
    let mut has_shift = false;
    let mut has_alt = false;
    let mut has_super = false;
    let mut main_key: Option<String> = None;
    let n = keys.len();
    let mut i: usize = 0;
    while i < n
        invariant
            i <= n,
            n == keys@.len(),
            has_control == keys@.subrange(0, i as int).contains(VK_CONTROL),
            has_shift == keys@.subrange(0, i as int).contains(VK_SHIFT),
            has_alt == keys@.subrange(0, i as int).contains(VK_ALT),
            has_super == keys@.subrange(0, i as int).contains(VK_SUPER),
            main_key is Some <==> nonmod_count(keys@.subrange(0, i as int)) == 1,
            nonmod_count(keys@.subrange(0, i as int)) <= 1,
            main_key matches Some(h) ==> {
                &&& first_nonmod(keys@.subrange(0, i as int)) is Some
                &&& spec_vk_hotkey(first_nonmod(keys@.subrange(0, i as int))->0) == Some(h@)
            },
        decreases n - i,
    {
        let ghost pre = keys@.subrange(0, i as int);
        let ghost pre2 = keys@.subrange(0, i + 1 as int);
        proof {
            assert(pre2 =~= pre + seq![keys@[i as int]]);
            lemma_nonmod_concat(pre, seq![keys@[i as int]]);
            lemma_nonmod_nonneg(pre);
            assert(seq![keys@[i as int]].drop_first() =~= Seq::<i32>::empty());
            assert(seq![keys@[i as int]][0] == keys@[i as int]);
            assert(nonmod_count(Seq::<i32>::empty()) == 0);
            assert(first_nonmod(Seq::<i32>::empty()) is None);
            assert(pre2[pre.len() as int] == keys@[i as int]);
            assert(forall|w: int| 0 <= w < pre.len() ==> pre2[w] == pre[w]);
        }
        let vk = keys[i];
        if vk == VK_CONTROL {
            has_control = true;
        } else if vk == VK_SHIFT {
            has_shift = true;
        } else if vk == VK_ALT {
            has_alt = true;
        } else if vk == VK_SUPER {
            has_super = true;
        } else {
            if main_key.is_some() {
                proof {
                    // A second main key: the whole set has at least two.
                    let rest = keys@.subrange(i + 1 as int, n as int);
                    assert(keys@ =~= pre2 + rest);
                    lemma_nonmod_concat(pre2, rest);
                    lemma_nonmod_nonneg(rest);
                    assert(nonmod_count(pre2) == 2);
                    assert(nonmod_count(keys@) >= 2);
                }
                return None;
            }
            match vk_to_hotkey_key(vk) {
                None => {
                    proof {
                        // The single main key seen so far has no name.
                        let rest = keys@.subrange(i + 1 as int, n as int);
                        assert(keys@ =~= pre2 + rest);
                        lemma_nonmod_concat(pre2, rest);
                        lemma_nonmod_nonneg(rest);
                        lemma_nonmod_zero_no_first(pre);
                        assert(nonmod_count(pre) == 0);
                        assert(nonmod_count(pre2) == 1);
                        assert(first_nonmod(pre2) == Some(vk));
                        if nonmod_count(keys@) == 1 {
                            assert(nonmod_count(rest) == 0);
                            lemma_nonmod_zero_no_first(rest);
                            assert(first_nonmod(keys@) == Some(vk));
                        }
                    }
                    return None;
                },
                Some(name) => {
                    proof {
                        lemma_nonmod_zero_no_first(pre);
                        assert(nonmod_count(pre) == 0);
                        assert(first_nonmod(pre2) == Some(vk));
                    }
                    main_key = Some(name);
                },
            }
        }
        proof {
            assert(pre2.contains(VK_CONTROL) == (pre.contains(VK_CONTROL)
                || keys@[i as int] == VK_CONTROL)) by {
                if pre.contains(VK_CONTROL) {
                    let w = choose|w: int| 0 <= w < pre.len() && pre[w] == VK_CONTROL;
                    assert(pre2[w] == VK_CONTROL);
                }
                if pre2.contains(VK_CONTROL) {
                    let w = choose|w: int| 0 <= w < pre2.len() && pre2[w] == VK_CONTROL;
                    if w < pre.len() {
                        assert(pre[w] == VK_CONTROL);
                    }
                }
            }
            assert(pre2.contains(VK_SHIFT) == (pre.contains(VK_SHIFT)
                || keys@[i as int] == VK_SHIFT)) by {
                if pre.contains(VK_SHIFT) {
                    let w = choose|w: int| 0 <= w < pre.len() && pre[w] == VK_SHIFT;
                    assert(pre2[w] == VK_SHIFT);
                }
                if pre2.contains(VK_SHIFT) {
                    let w = choose|w: int| 0 <= w < pre2.len() && pre2[w] == VK_SHIFT;
                    if w < pre.len() {
                        assert(pre[w] == VK_SHIFT);
                    }
                }
            }
            assert(pre2.contains(VK_ALT) == (pre.contains(VK_ALT) || keys@[i as int]
                == VK_ALT)) by {
                if pre.contains(VK_ALT) {
                    let w = choose|w: int| 0 <= w < pre.len() && pre[w] == VK_ALT;
                    assert(pre2[w] == VK_ALT);
                }
                if pre2.contains(VK_ALT) {
                    let w = choose|w: int| 0 <= w < pre2.len() && pre2[w] == VK_ALT;
                    if w < pre.len() {
                        assert(pre[w] == VK_ALT);
                    }
                }
            }
            assert(pre2.contains(VK_SUPER) == (pre.contains(VK_SUPER) || keys@[i as int]
                == VK_SUPER)) by {
                if pre.contains(VK_SUPER) {
                    let w = choose|w: int| 0 <= w < pre.len() && pre[w] == VK_SUPER;
                    assert(pre2[w] == VK_SUPER);
                }
                if pre2.contains(VK_SUPER) {
                    let w = choose|w: int| 0 <= w < pre2.len() && pre2[w] == VK_SUPER;
                    if w < pre.len() {
                        assert(pre[w] == VK_SUPER);
                    }
                }
            }
        }
        i = i + 1;
    }
    proof {
        assert(keys@.subrange(0, n as int) =~= keys@);
    }
    match main_key {
        None => None,
        Some(name) => {
            let mut out = String::new();
            if has_control {
                out.append("Control+");
            }
            if has_shift {
                out.append("Shift+");
            }
            if has_alt {
                out.append("Alt+");
            }
            if has_super {
                out.append("Super+");
            }
            out.append(name.as_str());
            proof {
                assert(out@ =~= spec_binding_to_hotkey(keys@)->0);
            }
            Some(out)
        },
    }
}

/// A main-key count is never negative.
pub proof fn lemma_nonmod_nonneg(ks: Seq<i32>)
    ensures
        nonmod_count(ks) >= 0,
    decreases ks.len(),
{
    if ks.len() > 0 {
        lemma_nonmod_nonneg(ks.drop_first());
    }
}

/// A set without main keys has no first main key.
pub proof fn lemma_nonmod_zero_no_first(ks: Seq<i32>)
    requires
        nonmod_count(ks) == 0,
    ensures
        first_nonmod(ks) is None,
    decreases ks.len(),
{
    if ks.len() > 0 {
        lemma_nonmod_nonneg(ks.drop_first());
        lemma_nonmod_zero_no_first(ks.drop_first());
    }
}

} // verus!
