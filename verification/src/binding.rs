//! The human-editable binding strings: parsing `"ctrl+shift+r"` into a
//! portable key set and formatting a key set back into its canonical
//! string, the form that gets re-persisted.
//!
//! Parsing splits on `+`, trims blanks around each token, lower-cases
//! it, and maps it through the token table; unknown tokens reject the
//! whole binding. The parsed set is canonicalized: duplicates dropped,
//! modifiers first in a fixed order, the remaining keys sorted. On that
//! canonical form, parse and format invert each other, which makes one
//! round of parse-then-format a fixed point.

use vstd::prelude::*;
use vstd::string::StringExecFns;
use crate::keys::{VK_ALT, VK_ARROW_DOWN, VK_ARROW_LEFT, VK_ARROW_RIGHT, VK_ARROW_UP,
    VK_BACKSPACE, VK_CONTROL, VK_DELETE, VK_END, VK_ENTER, VK_ESCAPE, VK_HOME, VK_INSERT,
    VK_PAGE_DOWN, VK_PAGE_UP, VK_SHIFT, VK_SPACE, VK_SUPER, VK_TAB, valid_vk};
use crate::text::{ascii_lower, chars_eq_str, chars_of, spec_ascii_lower};

verus! {

/// The blank characters trimmed around binding tokens and dictionary
/// words.
pub open spec fn is_blank(c: char) -> bool {
    c == ' ' || c == '\t' || c == '\r' || c == '\n'
}

/// Executable twin of [`is_blank`].
pub fn char_is_blank(c: char) -> (r: bool)
    ensures
        r == is_blank(c),
{
    c == ' ' || c == '\t' || c == '\r' || c == '\n'
}

/// Index of the first `+` in a character sequence, or `-1`.
pub open spec fn first_plus(s: Seq<char>) -> int
    decreases s.len(),
{
    if s.len() == 0 {
        -1
    } else if s[0] == '+' {
        0
    } else {
        let r = first_plus(s.drop_first());
        if r < 0 {
            -1
        } else {
            r + 1
        }
    }
}

/// A sequence without `+` has no first `+`.
pub proof fn lemma_first_plus_none(s: Seq<char>)
    requires
        forall|j: int| 0 <= j < s.len() ==> s[j] != '+',
    ensures
        first_plus(s) == -1,
    decreases s.len(),
{
    if s.len() > 0 {
        assert(forall|j: int| 0 <= j < s.drop_first().len() ==> s.drop_first()[j] != '+') by {
            assert(forall|j: int| 0 <= j < s.drop_first().len() ==> s.drop_first()[j] == s[j + 1]);
        }
        lemma_first_plus_none(s.drop_first());
    }
}

/// If position `i` holds the first `+`, `first_plus` finds it.
pub proof fn lemma_first_plus_at(s: Seq<char>, i: int)
    requires
        0 <= i < s.len(),
        s[i] == '+',
        forall|j: int| 0 <= j < i ==> s[j] != '+',
    ensures
        first_plus(s) == i,
    decreases i,
{
    if i > 0 {
        assert(forall|j: int| 0 <= j < i - 1 ==> s.drop_first()[j] != '+') by {
            assert(forall|j: int| 0 <= j < s.drop_first().len() ==> s.drop_first()[j] == s[j + 1]);
        }
        assert(s.drop_first()[i - 1] == '+');
        lemma_first_plus_at(s.drop_first(), i - 1);
    }
}

/// Split a binding string at every `+`, keeping empty pieces.
pub open spec fn split_plus(s: Seq<char>) -> Seq<Seq<char>>
    decreases s.len(),
{
    let i = first_plus(s);
    if !(0 <= i < s.len()) {
        seq![s]
    } else {
        seq![s.subrange(0, i)] + split_plus(s.subrange(i + 1, s.len() as int))
    }
}

/// Leading blanks removed.
pub open spec fn trim_front(s: Seq<char>) -> Seq<char>
    decreases s.len(),
{
    if s.len() > 0 && is_blank(s[0]) {
        trim_front(s.drop_first())
    } else {
        s
    }
}

/// Trailing blanks removed.
pub open spec fn trim_back(s: Seq<char>) -> Seq<char>
    decreases s.len(),
{
    if s.len() > 0 && is_blank(s.last()) {
        trim_back(s.drop_last())
    } else {
        s
    }
}

/// Blanks removed from both ends.
pub open spec fn trim_blanks(s: Seq<char>) -> Seq<char> {
    trim_back(trim_front(s))
}

/// Every character lower-cased (ASCII).
pub open spec fn lower_seq(s: Seq<char>) -> Seq<char>
    decreases s.len(),
{
    if s.len() == 0 {
        Seq::empty()
    } else {
        seq![spec_ascii_lower(s[0])] + lower_seq(s.drop_first())
    }
}

/// `lower_seq` characterized element-wise.
pub proof fn lemma_lower_seq_char(s: Seq<char>)
    ensures
        lower_seq(s).len() == s.len(),
        forall|j: int| 0 <= j < s.len() ==> lower_seq(s)[j] == spec_ascii_lower(s[j]),
    decreases s.len(),
{
    if s.len() > 0 {
        lemma_lower_seq_char(s.drop_first());
        assert(forall|j: int|
            1 <= j < s.len() ==> lower_seq(s)[j] == lower_seq(s.drop_first())[j - 1]);
        assert(forall|j: int| 0 <= j < s.drop_first().len() ==> s.drop_first()[j] == s[j + 1]);
    }
}

/// A normalized (trimmed, lower-cased) token, mapped to its portable
/// key code. Unknown tokens map to nothing.
pub open spec fn spec_token_to_vk(t: Seq<char>) -> Option<i32> {
    if t.len() == 1 {
        let c = t[0];
        if 'a' <= c && c <= 'z' {
            Some((0x41 + (c as u32 - 'a' as u32)) as i32)
        } else if '0' <= c && c <= '9' {
            Some((0x30 + (c as u32 - '0' as u32)) as i32)
        } else {
            None
        }
    } else if t.len() == 2 && t[0] == 'f' && '1' <= t[1] && t[1] <= '9' {
        Some((0x70 + (t[1] as u32 - '1' as u32)) as i32)
    } else if t.len() == 3 && t[0] == 'f' && t[1] == '1' && '0' <= t[2] && t[2] <= '2' {
        Some((0x79 + (t[2] as u32 - '0' as u32)) as i32)
    } else if t == "ctrl"@ || t == "control"@ {
        Some(VK_CONTROL)
    } else if t == "shift"@ {
        Some(VK_SHIFT)
    } else if t == "alt"@ {
        Some(VK_ALT)
    } else if t == "super"@ || t == "meta"@ || t == "cmd"@ || t == "win"@ {
        Some(VK_SUPER)
    } else if t == "space"@ {
        Some(VK_SPACE)
    } else if t == "enter"@ || t == "return"@ {
        Some(VK_ENTER)
    } else if t == "escape"@ || t == "esc"@ {
        Some(VK_ESCAPE)
    } else if t == "tab"@ {
        Some(VK_TAB)
    } else if t == "backspace"@ {
        Some(VK_BACKSPACE)
    } else if t == "delete"@ {
        Some(VK_DELETE)
    } else if t == "insert"@ {
        Some(VK_INSERT)
    } else if t == "home"@ {
        Some(VK_HOME)
    } else if t == "end"@ {
        Some(VK_END)
    } else if t == "pageup"@ {
        Some(VK_PAGE_UP)
    } else if t == "pagedown"@ {
        Some(VK_PAGE_DOWN)
    } else if t == "up"@ || t == "arrowup"@ {
        Some(VK_ARROW_UP)
    } else if t == "down"@ || t == "arrowdown"@ {
        Some(VK_ARROW_DOWN)
    } else if t == "left"@ || t == "arrowleft"@ {
        Some(VK_ARROW_LEFT)
    } else if t == "right"@ || t == "arrowright"@ {
        Some(VK_ARROW_RIGHT)
    } else {
        None
    }
}

/// The canonical token of a valid portable key code; the empty sequence
/// for codes outside the table.
pub open spec fn spec_vk_token(vk: i32) -> Seq<char> {
    if vk == VK_CONTROL {
        "ctrl"@
    } else if vk == VK_SHIFT {
        "shift"@
    } else if vk == VK_ALT {
        "alt"@
    } else if vk == VK_SUPER {
        "super"@
    } else if 0x41 <= vk && vk <= 0x5A {
        seq![((vk - 0x41 + 97) as u8) as char]
    } else if 0x30 <= vk && vk <= 0x39 {
        seq![((vk - 0x30 + 48) as u8) as char]
    } else if 0x70 <= vk && vk <= 0x78 {
        seq!['f', ((vk - 0x70 + 49) as u8) as char]
    } else if 0x79 <= vk && vk <= 0x7B {
        seq!['f', '1', ((vk - 0x79 + 48) as u8) as char]
    } else if vk == VK_SPACE {
        "space"@
    } else if vk == VK_ENTER {
        "enter"@
    } else if vk == VK_ESCAPE {
        "escape"@
    } else if vk == VK_TAB {
        "tab"@
    } else if vk == VK_BACKSPACE {
        "backspace"@
    } else if vk == VK_DELETE {
        "delete"@
    } else if vk == VK_INSERT {
        "insert"@
    } else if vk == VK_HOME {
        "home"@
    } else if vk == VK_END {
        "end"@
    } else if vk == VK_PAGE_UP {
        "pageup"@
    } else if vk == VK_PAGE_DOWN {
        "pagedown"@
    } else if vk == VK_ARROW_UP {
        "up"@
    } else if vk == VK_ARROW_DOWN {
        "down"@
    } else if vk == VK_ARROW_LEFT {
        "left"@
    } else if vk == VK_ARROW_RIGHT {
        "right"@
    } else {
        Seq::empty()
    }
}

/// The ordering key that canonicalization sorts by: the four modifiers
/// first, in a fixed order, then the remaining keys by their code.
/// Distinct valid keys have distinct ranks.
pub open spec fn vk_rank(vk: i32) -> int {
    if vk == VK_CONTROL {
        0
    } else if vk == VK_SHIFT {
        1
    } else if vk == VK_ALT {
        2
    } else if vk == VK_SUPER {
        3
    } else {
        4 + vk as int
    }
}

/// A key set in canonical form: strictly increasing rank, which also
/// rules out duplicates.
pub open spec fn canonical_keys(ks: Seq<i32>) -> bool {
    forall|i: int, j: int| 0 <= i < j < ks.len() ==> vk_rank(ks[i]) < vk_rank(ks[j])
}

/// Insert a key into a canonical sequence at its rank position; a key
/// of the same rank is already there and the sequence is unchanged.
pub open spec fn canon_insert(ks: Seq<i32>, vk: i32) -> Seq<i32>
    decreases ks.len(),
{
    if ks.len() == 0 {
        seq![vk]
    } else if vk_rank(vk) < vk_rank(ks[0]) {
        seq![vk] + ks
    } else if vk_rank(vk) == vk_rank(ks[0]) {
        ks
    } else {
        seq![ks[0]] + canon_insert(ks.drop_first(), vk)
    }
}

/// Canonicalize a key list: insert every key in order.
pub open spec fn canonicalize(ks: Seq<i32>) -> Seq<i32>
    decreases ks.len(),
{
    if ks.len() == 0 {
        Seq::empty()
    } else {
        canon_insert(canonicalize(ks.drop_last()), ks.last())
    }
}

/// Parse a list of raw tokens: empty tokens (after trimming) are
/// skipped, an unknown token rejects the whole list.
pub open spec fn parse_tokens(ts: Seq<Seq<char>>) -> Option<Seq<i32>>
    decreases ts.len(),
{
    if ts.len() == 0 {
        Some(Seq::empty())
    } else {
        let norm = lower_seq(trim_blanks(ts[0]));
        if norm.len() == 0 {
            parse_tokens(ts.drop_first())
        } else {
            match spec_token_to_vk(norm) {
                None => None,
                Some(vk) => match parse_tokens(ts.drop_first()) {
                    None => None,
                    Some(rest) => Some(seq![vk] + rest),
                },
            }
        }
    }
}

/// The parsed key set of a binding string: canonical and non-empty on
/// success, empty exactly when the string does not resolve to a
/// non-empty key set.
pub open spec fn spec_parse_binding(s: Seq<char>) -> Seq<i32> {
    match parse_tokens(split_plus(s)) {
        None => Seq::empty(),
        Some(ks) => canonicalize(ks),
    }
}

/// The tail of a formatted binding: `+token` for every key.
pub open spec fn format_rest(ks: Seq<i32>) -> Seq<char>
    decreases ks.len(),
{
    if ks.len() == 0 {
        Seq::empty()
    } else {
        seq!['+'] + spec_vk_token(ks[0]) + format_rest(ks.drop_first())
    }
}

/// The canonical string of a key list: its tokens joined with `+`.
pub open spec fn spec_format_keys(ks: Seq<i32>) -> Seq<char> {
    if ks.len() == 0 {
        Seq::empty()
    } else {
        spec_vk_token(ks[0]) + format_rest(ks.drop_first())
    }
}

/// Map one normalized token through the token table.
fn token_to_vk(t: &Vec<char>) -> (r: Option<i32>)
    ensures
        r == spec_token_to_vk(t@),
{
    if t.len() == 1 {
        let c = t[0];
        if 'a' <= c && c <= 'z' {
            Some((0x41 + (c as u32 - 'a' as u32)) as i32)
        } else if '0' <= c && c <= '9' {
            Some((0x30 + (c as u32 - '0' as u32)) as i32)
        } else {
            None
        }
    } else if t.len() == 2 && t[0] == 'f' && '1' <= t[1] && t[1] <= '9' {
        Some((0x70 + (t[1] as u32 - '1' as u32)) as i32)
    } else if t.len() == 3 && t[0] == 'f' && t[1] == '1' && '0' <= t[2] && t[2] <= '2' {
        Some((0x79 + (t[2] as u32 - '0' as u32)) as i32)
    } else if chars_eq_str(t, "ctrl") || chars_eq_str(t, "control") {
        Some(VK_CONTROL)
    } else if chars_eq_str(t, "shift") {
        Some(VK_SHIFT)
    } else if chars_eq_str(t, "alt") {
        Some(VK_ALT)
    } else if chars_eq_str(t, "super") || chars_eq_str(t, "meta") || chars_eq_str(t, "cmd")
        || chars_eq_str(t, "win") {
        Some(VK_SUPER)
    } else if chars_eq_str(t, "space") {
        Some(VK_SPACE)
    } else if chars_eq_str(t, "enter") || chars_eq_str(t, "return") {
        Some(VK_ENTER)
    } else if chars_eq_str(t, "escape") || chars_eq_str(t, "esc") {
        Some(VK_ESCAPE)
    } else if chars_eq_str(t, "tab") {
        Some(VK_TAB)
    } else if chars_eq_str(t, "backspace") {
        Some(VK_BACKSPACE)
    } else if chars_eq_str(t, "delete") {
        Some(VK_DELETE)
    } else if chars_eq_str(t, "insert") {
        Some(VK_INSERT)
    } else if chars_eq_str(t, "home") {
        Some(VK_HOME)
    } else if chars_eq_str(t, "end") {
        Some(VK_END)
    } else if chars_eq_str(t, "pageup") {
        Some(VK_PAGE_UP)
    } else if chars_eq_str(t, "pagedown") {
        Some(VK_PAGE_DOWN)
    } else if chars_eq_str(t, "up") || chars_eq_str(t, "arrowup") {
        Some(VK_ARROW_UP)
    } else if chars_eq_str(t, "down") || chars_eq_str(t, "arrowdown") {
        Some(VK_ARROW_DOWN)
    } else if chars_eq_str(t, "left") || chars_eq_str(t, "arrowleft") {
        Some(VK_ARROW_LEFT)
    } else if chars_eq_str(t, "right") || chars_eq_str(t, "arrowright") {
        Some(VK_ARROW_RIGHT)
    } else {
        None
    }
}

/// Append the canonical token of a key code to the output string.
fn append_vk_token(out: &mut String, vk: i32)
    ensures
        final(out)@ == old(out)@ + spec_vk_token(vk),
{
    if vk == VK_CONTROL {
        out.append("ctrl");
    } else if vk == VK_SHIFT {
        out.append("shift");
    } else if vk == VK_ALT {
        out.append("alt");
    } else if vk == VK_SUPER {
        out.append("super");
    } else if 0x41 <= vk && vk <= 0x5A {
        out.push(((vk - 0x41 + 97) as u8) as char);
        proof {
            assert(out@ =~= old(out)@ + spec_vk_token(vk));
        }
    } else if 0x30 <= vk && vk <= 0x39 {
        out.push(((vk - 0x30 + 48) as u8) as char);
        proof {
            assert(out@ =~= old(out)@ + spec_vk_token(vk));
        }
    } else if 0x70 <= vk && vk <= 0x78 {
        out.push('f');
        out.push(((vk - 0x70 + 49) as u8) as char);
        proof {
            assert(out@ =~= old(out)@ + spec_vk_token(vk));
        }
    } else if 0x79 <= vk && vk <= 0x7B {
        out.push('f');
        out.push('1');
        out.push(((vk - 0x79 + 48) as u8) as char);
        proof {
            assert(out@ =~= old(out)@ + spec_vk_token(vk));
        }
    } else if vk == VK_SPACE {
        out.append("space");
    } else if vk == VK_ENTER {
        out.append("enter");
    } else if vk == VK_ESCAPE {
        out.append("escape");
    } else if vk == VK_TAB {
        out.append("tab");
    } else if vk == VK_BACKSPACE {
        out.append("backspace");
    } else if vk == VK_DELETE {
        out.append("delete");
    } else if vk == VK_INSERT {
        out.append("insert");
    } else if vk == VK_HOME {
        out.append("home");
    } else if vk == VK_END {
        out.append("end");
    } else if vk == VK_PAGE_UP {
        out.append("pageup");
    } else if vk == VK_PAGE_DOWN {
        out.append("pagedown");
    } else if vk == VK_ARROW_UP {
        out.append("up");
    } else if vk == VK_ARROW_DOWN {
        out.append("down");
    } else if vk == VK_ARROW_LEFT {
        out.append("left");
    } else if vk == VK_ARROW_RIGHT {
        out.append("right");
    } else {
        proof {
            assert(out@ =~= old(out)@ + spec_vk_token(vk));
        }
    }
}

/// `format_rest` grows by `+token` when a key is appended.
pub proof fn lemma_format_rest_snoc(ks: Seq<i32>, vk: i32)
    ensures
        format_rest(ks.push(vk)) == format_rest(ks) + seq!['+'] + spec_vk_token(vk),
    decreases ks.len(),
{
    if ks.len() == 0 {
        assert(ks.push(vk).drop_first() =~= Seq::<i32>::empty());
        assert(ks.push(vk)[0] == vk);
        assert(format_rest(ks.push(vk)) == seq!['+'] + spec_vk_token(vk) + format_rest(
            ks.push(vk).drop_first()));
        assert(format_rest(ks.push(vk)) =~= format_rest(ks) + seq!['+'] + spec_vk_token(vk));
    } else {
        assert(ks.push(vk).drop_first() =~= ks.drop_first().push(vk));
        lemma_format_rest_snoc(ks.drop_first(), vk);
        assert(ks.push(vk)[0] == ks[0]);
        assert(format_rest(ks.push(vk)) == seq!['+'] + spec_vk_token(ks[0]) + format_rest(
            ks.drop_first().push(vk)));
        assert(format_rest(ks.drop_first().push(vk)) == format_rest(ks.drop_first())
            + seq!['+'] + spec_vk_token(vk));
        assert(format_rest(ks.push(vk)) =~= format_rest(ks) + seq!['+'] + spec_vk_token(vk));
    }
}

/// Format a key set as its canonical binding string: the tokens of its
/// keys, in the order given, joined with `+`.
pub fn keys_to_string(keys: &Vec<i32>) -> (r: String)
    ensures
        r@ == spec_format_keys(keys@),
{
    let mut out = String::new();
    if keys.len() == 0 {
        return out;
    }
    append_vk_token(&mut out, keys[0]);
    proof {
        assert(out@ =~= spec_vk_token(keys@[0]) + format_rest(keys@.subrange(1, 1)));
    }
    let mut i: usize = 1;
    while i < keys.len()
        invariant
            1 <= i <= keys@.len(),
            out@ == spec_vk_token(keys@[0]) + format_rest(keys@.subrange(1, i as int)),
        decreases keys@.len() - i,
    {
        out.append("+");
        append_vk_token(&mut out, keys[i]);
        proof {
            let pre = keys@.subrange(1, i as int);
            lemma_format_rest_snoc(pre, keys@[i as int]);
            assert(keys@.subrange(1, i + 1 as int) =~= pre.push(keys@[i as int]));
            reveal_strlit("+");
            assert(out@ =~= spec_vk_token(keys@[0]) + format_rest(
                keys@.subrange(1, i + 1 as int)));
        }
        i = i + 1;
    }
    proof {
        assert(keys@.subrange(1, keys@.len() as int) =~= keys@.drop_first());
    }
    out
}

/// Token-list parsing distributes over concatenation: a failure in the
/// front rejects the whole list, otherwise the parsed keys concatenate.
pub proof fn lemma_parse_tokens_concat(a: Seq<Seq<char>>, b: Seq<Seq<char>>)
    ensures
        parse_tokens(a + b) == match parse_tokens(a) {
            None => None::<Seq<i32>>,
            Some(ka) => match parse_tokens(b) {
                None => None::<Seq<i32>>,
                Some(kb) => Some(ka + kb),
            },
        },
    decreases a.len(),
{
    if a.len() == 0 {
        assert(a + b =~= b);
        match parse_tokens(b) {
            None => {},
            Some(kb) => {
                assert(Seq::<i32>::empty() + kb =~= kb);
            },
        }
    } else {
        assert((a + b).len() > 0);
        assert((a + b)[0] == a[0]);
        assert((a + b).drop_first() =~= a.drop_first() + b);
        lemma_parse_tokens_concat(a.drop_first(), b);
        let norm = lower_seq(trim_blanks(a[0]));
        if norm.len() == 0 {
        } else {
            match spec_token_to_vk(norm) {
                None => {},
                Some(vk) => {
                    match parse_tokens(a.drop_first()) {
                        None => {},
                        Some(ra) => {
                            match parse_tokens(b) {
                                None => {},
                                Some(kb) => {
                                    assert(seq![vk] + (ra + kb) =~= (seq![vk] + ra) + kb);
                                },
                            }
                        },
                    }
                },
            }
        }
    }
}

/// `canon_insert` characterized by the insertion position: with the
/// keys before `p` ranked below the new key and the key at `p` (if any)
/// ranked at or above it, the new key lands at `p`, or is dropped when
/// the rank at `p` is its own.
pub proof fn lemma_canon_insert_at(ks: Seq<i32>, vk: i32, p: int)
    requires
        canonical_keys(ks),
        0 <= p <= ks.len(),
        forall|j: int| 0 <= j < p ==> vk_rank(ks[j]) < vk_rank(vk),
        p < ks.len() ==> vk_rank(ks[p]) >= vk_rank(vk),
    ensures
        p < ks.len() && vk_rank(ks[p]) == vk_rank(vk) ==> canon_insert(ks, vk) == ks,
        !(p < ks.len() && vk_rank(ks[p]) == vk_rank(vk)) ==> canon_insert(ks, vk)
            == ks.subrange(0, p) + seq![vk] + ks.subrange(p, ks.len() as int),
    decreases ks.len(),
{
    if ks.len() == 0 {
        assert(canon_insert(ks, vk) =~= ks.subrange(0, 0) + seq![vk] + ks.subrange(0, 0));
    } else if p == 0 {
        if vk_rank(vk) < vk_rank(ks[0]) {
            assert(canon_insert(ks, vk) == seq![vk] + ks);
            assert(ks.subrange(0, 0) + seq![vk] + ks.subrange(0, ks.len() as int) =~= seq![vk]
                + ks);
        }
    } else {
        let rest = ks.drop_first();
        assert(canonical_keys(rest)) by {
            assert(forall|i: int, j: int|
                0 <= i < j < rest.len() ==> rest[i] == ks[i + 1] && rest[j] == ks[j + 1]);
        }
        assert(forall|j: int| 0 <= j < p - 1 ==> rest[j] == ks[j + 1]);
        assert(p - 1 < rest.len() ==> rest[p - 1] == ks[p]);
        lemma_canon_insert_at(rest, vk, p - 1);
        assert(vk_rank(vk) > vk_rank(ks[0]));
        assert(canon_insert(ks, vk) == seq![ks[0]] + canon_insert(rest, vk));
        if p < ks.len() && vk_rank(ks[p]) == vk_rank(vk) {
            assert(seq![ks[0]] + rest =~= ks);
        } else {
            assert(canon_insert(rest, vk) == rest.subrange(0, p - 1) + seq![vk] + rest.subrange(
                p - 1, rest.len() as int));
            assert(seq![ks[0]] + (rest.subrange(0, p - 1) + seq![vk] + rest.subrange(p - 1,
                rest.len() as int)) =~= ks.subrange(0, p) + seq![vk] + ks.subrange(p,
                ks.len() as int));
        }
    }
}

/// The rank a key sorts by during canonicalization.
fn rank_of(vk: i32) -> (r: i64)
    ensures
        r as int == vk_rank(vk),
{
    if vk == VK_CONTROL {
        0
    } else if vk == VK_SHIFT {
        1
    } else if vk == VK_ALT {
        2
    } else if vk == VK_SUPER {
        3
    } else {
        4 + vk as i64
    }
}

/// Insert a key into a canonical key vector, keeping it canonical and
/// dropping duplicates.
fn canon_push(out: &mut Vec<i32>, vk: i32)
    requires
        canonical_keys(old(out)@),
    ensures
        canonical_keys(final(out)@),
        final(out)@ == canon_insert(old(out)@, vk),
{
    let rank = rank_of(vk);
    let mut p: usize = 0;
    while p < out.len() && rank_of(out[p]) < rank
        invariant
            p <= out@.len(),
            out@ == old(out)@,
            rank as int == vk_rank(vk),
            forall|j: int| 0 <= j < p ==> vk_rank(out@[j]) < vk_rank(vk),
        decreases out@.len() - p,
    {
        p = p + 1;
    }
    if p < out.len() && rank_of(out[p]) == rank {
        proof {
            lemma_canon_insert_at(out@, vk, p as int);
        }
    } else {
        proof {
            lemma_canon_insert_at(out@, vk, p as int);
        }
        let ghost o0 = out@;
        out.insert(p, vk);
        proof {
            assert(out@ =~= o0.subrange(0, p as int) + seq![vk] + o0.subrange(p as int,
                o0.len() as int));
            assert(canonical_keys(out@)) by {
                assert(forall|j: int|
                    0 <= j < out@.len() ==> out@[j] == (if j < p {
                        o0[j]
                    } else if j == p {
                        vk
                    } else {
                        o0[j - 1]
                    }));
            }
        }
    }
}

/// `trim_front` strips exactly the leading blanks.
pub proof fn lemma_trim_front_at(t: Seq<char>, a: int)
    requires
        0 <= a <= t.len(),
        forall|k: int| 0 <= k < a ==> is_blank(t[k]),
        a < t.len() ==> !is_blank(t[a]),
    ensures
        trim_front(t) == t.subrange(a, t.len() as int),
    decreases a,
{
    if a == 0 {
        if t.len() > 0 && is_blank(t[0]) {
            assert(false);
        }
        assert(t.subrange(0, t.len() as int) =~= t);
    } else {
        let rest = t.drop_first();
        assert(forall|k: int| 0 <= k < a - 1 ==> rest[k] == t[k + 1]);
        assert(a - 1 < rest.len() ==> rest[a - 1] == t[a]);
        lemma_trim_front_at(rest, a - 1);
        assert(rest.subrange(a - 1, rest.len() as int) =~= t.subrange(a, t.len() as int));
    }
}

/// `trim_back` strips exactly the trailing blanks.
pub proof fn lemma_trim_back_at(t: Seq<char>, b: int)
    requires
        0 <= b <= t.len(),
        forall|k: int| b <= k < t.len() ==> is_blank(t[k]),
        b > 0 ==> !is_blank(t[b - 1]),
    ensures
        trim_back(t) == t.subrange(0, b),
    decreases t.len(),
{
    if b == t.len() {
        if t.len() > 0 && is_blank(t.last()) {
            assert(false);
        }
        assert(t.subrange(0, t.len() as int) =~= t);
    } else {
        assert(is_blank(t.last()));
        let rest = t.drop_last();
        assert(forall|k: int| 0 <= k < rest.len() ==> rest[k] == t[k]);
        lemma_trim_back_at(rest, b);
        assert(rest.subrange(0, b) =~= t.subrange(0, b));
    }
}

/// `trim_blanks` keeps exactly the span between the leading and the
/// trailing blanks.
pub proof fn lemma_trim_at(t: Seq<char>, a: int, b: int)
    requires
        0 <= a <= b <= t.len(),
        forall|k: int| 0 <= k < a ==> is_blank(t[k]),
        forall|k: int| b <= k < t.len() ==> is_blank(t[k]),
        a < b ==> !is_blank(t[a]) && !is_blank(t[b - 1]),
    ensures
        trim_blanks(t) == t.subrange(a, b),
    decreases 0int,
{
    if a == b {
        // Every character is blank; both trims strip everything.
        lemma_trim_front_at(t, t.len() as int);
        assert(trim_front(t) =~= Seq::<char>::empty());
        assert(trim_back(Seq::<char>::empty()) =~= t.subrange(a, b));
    } else {
        lemma_trim_front_at(t, a);
        let mid = t.subrange(a, t.len() as int);
        assert(forall|k: int| b - a <= k < mid.len() ==> mid[k] == t[k + a]);
        assert(mid[b - a - 1] == t[b - 1]);
        lemma_trim_back_at(mid, b - a);
        assert(mid.subrange(0, b - a) =~= t.subrange(a, b));
    }
}

/// Parse a human-editable binding string into its canonical portable
/// key set. Tokens are separated by `+`, blanks around a token are
/// ignored and its case does not matter; an empty token is skipped. The
/// result is empty exactly when the string does not resolve to a
/// non-empty key set — such a binding is rejected, and the caller keeps
/// the previous one.
pub fn parse_binding_keys(s: &str) -> (r: Vec<i32>)
    ensures
        r@ == spec_parse_binding(s@),
        canonical_keys(r@),
{
    let chars = chars_of(s);
    let len = chars.len();
    let ghost full = s@;
    let mut acc: Vec<i32> = Vec::new();
    let ghost mut done: Seq<Seq<char>> = Seq::empty();
    let mut pos: usize = 0;
    let mut finished = false;
    proof {
        assert(full.subrange(0, len as int) =~= full);
        assert(Seq::<Seq<char>>::empty() + split_plus(full) =~= split_plus(full));
        assert(acc@ =~= Seq::<i32>::empty());
    }
    while !finished
        invariant
            full == s@,
            chars@ == full,
            len == full.len(),
            pos <= len,
            !finished ==> split_plus(full) == done + split_plus(full.subrange(pos as int,
                len as int)),
            finished ==> split_plus(full) == done,
            parse_tokens(done) == Some(acc@),
        decreases len - pos + (if finished { 0int } else { 1int }),
    {
        let ghost pos0 = pos as int;
        let ghost suffix = full.subrange(pos0, len as int);
        // Find the end of the current token.
        let mut j: usize = pos;
        while j < len && chars[j] != '+'
            invariant
                pos <= j <= len,
                chars@ == full,
                len == full.len(),
                forall|k: int| pos <= k < j ==> full[k] != '+',
            decreases len - j,
        {
            j = j + 1;
        }
        proof {
            assert(forall|k: int| 0 <= k < suffix.len() ==> suffix[k] == full[pos0 + k]);
            if j < len {
                assert(suffix[j - pos0] == '+');
                lemma_first_plus_at(suffix, j - pos0);
            } else {
                lemma_first_plus_none(suffix);
            }
        }
        let ghost token = suffix.subrange(0, j - pos0);
        proof {
            if j < len {
                assert(split_plus(suffix) == seq![token] + split_plus(suffix.subrange(
                    j - pos0 + 1, suffix.len() as int)));
            } else {
                assert(token =~= suffix);
                assert(split_plus(suffix) == seq![token]);
            }
        }
        // Trim blanks off both ends of the token.
        let mut a = pos;
        while a < j && char_is_blank(chars[a])
            invariant
                pos <= a <= j <= len,
                chars@ == full,
                len == full.len(),
                forall|k: int| pos <= k < a ==> is_blank(full[k]),
            decreases j - a,
        {
            a = a + 1;
        }
        let mut b = j;
        while b > a && char_is_blank(chars[b - 1])
            invariant
                a <= b <= j <= len,
                chars@ == full,
                len == full.len(),
                forall|k: int| b <= k < j ==> is_blank(full[k]),
            decreases b - a,
        {
            b = b - 1;
        }
        proof {
            assert(forall|k: int| 0 <= k < token.len() ==> token[k] == full[pos0 + k]);
            lemma_trim_at(token, a - pos0, b - pos0);
        }
        // Lower-case the trimmed token.
        let mut norm: Vec<char> = Vec::new();
        let mut k = a;
        while k < b
            invariant
                a <= k <= b <= len,
                chars@ == full,
                len == full.len(),
                norm@.len() == k - a,
                forall|t: int| 0 <= t < k - a ==> norm@[t] == spec_ascii_lower(full[a + t]),
            decreases b - k,
        {
            norm.push(ascii_lower(chars[k]));
            k = k + 1;
        }
        proof {
            lemma_lower_seq_char(trim_blanks(token));
            assert(trim_blanks(token) == token.subrange(a - pos0, b - pos0));
            assert(forall|t: int|
                0 <= t < b - a ==> trim_blanks(token)[t] == full[a + t]);
            assert(norm@ =~= lower_seq(trim_blanks(token)));
        }
        // Feed the token through the table.
        if norm.len() == 0 {
            proof {
                lemma_parse_tokens_concat(done, seq![token]);
                assert(seq![token].len() == 1);
                assert(seq![token][0] == token);
                assert(seq![token].drop_first() =~= Seq::<Seq<char>>::empty());
                assert(lower_seq(trim_blanks(token)).len() == 0);
                assert(parse_tokens(Seq::<Seq<char>>::empty()) == Some(Seq::<i32>::empty()));
                assert(parse_tokens(seq![token]) == Some(Seq::<i32>::empty()));
                assert(acc@ + Seq::<i32>::empty() =~= acc@);
                done = done + seq![token];
            }
        } else {
            match token_to_vk(&norm) {
                None => {
                    proof {
                        lemma_parse_tokens_concat(done, split_plus(suffix));
                        assert(split_plus(suffix)[0] == token);
                        assert(parse_tokens(split_plus(suffix)) is None);
                        assert(parse_tokens(split_plus(full)) is None);
                    }
                    let empty: Vec<i32> = Vec::new();
                    proof {
                        assert(empty@ =~= spec_parse_binding(full));
                    }
                    return empty;
                },
                Some(vk) => {
                    let ghost acc0 = acc@;
                    acc.push(vk);
                    proof {
                        lemma_parse_tokens_concat(done, seq![token]);
                        assert(seq![token].len() == 1);
                        assert(seq![token][0] == token);
                        assert(seq![token].drop_first() =~= Seq::<Seq<char>>::empty());
                        assert(seq![vk] + Seq::<i32>::empty() =~= seq![vk]);
                        assert(spec_token_to_vk(lower_seq(trim_blanks(token))) == Some(vk));
                        assert(parse_tokens(Seq::<Seq<char>>::empty()) == Some(Seq::<i32>::empty()));
                        assert(parse_tokens(seq![token]) == Some(seq![vk]));
                        assert(acc@ =~= acc0 + seq![vk]);
                        done = done + seq![token];
                    }
                },
            }
        }
        // Step past the separator, or finish after the last token.
        if j < len {
            pos = j + 1;
            proof {
                assert(suffix.subrange(j - pos0 + 1, suffix.len() as int) =~= full.subrange(
                    pos as int, len as int));
                assert(split_plus(full) == done + split_plus(full.subrange(pos as int,
                    len as int)));
            }
        } else {
            finished = true;
            proof {
                assert(split_plus(full) == done);
            }
        }
    }
    // Canonicalize: duplicates dropped, modifiers first in their fixed
    // order, the remaining keys sorted.
    let mut out: Vec<i32> = Vec::new();
    let n = acc.len();
    let mut i: usize = 0;
    proof {
        assert(acc@.subrange(0, 0) =~= Seq::<i32>::empty());
        assert(out@ =~= canonicalize(acc@.subrange(0, 0)));
    }
    while i < n
        invariant
            i <= n,
            n == acc@.len(),
            canonical_keys(out@),
            out@ == canonicalize(acc@.subrange(0, i as int)),
        decreases n - i,
    {
        canon_push(&mut out, acc[i]);
        proof {
            let pre = acc@.subrange(0, i as int);
            let pre2 = acc@.subrange(0, i + 1 as int);
            assert(pre2.drop_last() =~= pre);
            assert(pre2.last() == acc@[i as int]);
        }
        i = i + 1;
    }
    proof {
        assert(acc@.subrange(0, n as int) =~= acc@);
    }
    out
}

/// The settings boundary of the shortcut editors: parse an edited
/// binding string and hand back the canonical form that gets
/// persisted, or nothing when the string does not resolve to a
/// non-empty key set — the caller then keeps the previous binding and
/// reports the error.
pub fn normalize_binding(binding: &str) -> (r: Option<String>)
    ensures
        ({
            let ks = spec_parse_binding(binding@);
            match r {
                None => ks.len() == 0,
                Some(n) => ks.len() > 0 && n@ == spec_format_keys(ks),
            }
        }),
{
    let keys = parse_binding_keys(binding);
    if keys.len() == 0 {
        None
    } else {
        Some(keys_to_string(&keys))
    }
}

/// Tokens produced by the canonical table are well formed: non-empty,
/// free of separators and blanks, already lower case, and mapped back
/// to their own key by the parsing table.
#[verifier::rlimit(100)]
pub proof fn lemma_token_roundtrip(vk: i32)
    requires
        valid_vk(vk),
    ensures
        spec_vk_token(vk).len() > 0,
        forall|j: int|
            0 <= j < spec_vk_token(vk).len() ==> spec_vk_token(vk)[j] != '+' && !is_blank(
                spec_vk_token(vk)[j]),
        trim_blanks(spec_vk_token(vk)) == spec_vk_token(vk),
        lower_seq(spec_vk_token(vk)) == spec_vk_token(vk),
        spec_token_to_vk(spec_vk_token(vk)) == Some(vk),
{
    reveal_strlit("ctrl");
    reveal_strlit("control");
    reveal_strlit("shift");
    reveal_strlit("alt");
    reveal_strlit("super");
    reveal_strlit("meta");
    reveal_strlit("cmd");
    reveal_strlit("win");
    reveal_strlit("space");
    reveal_strlit("enter");
    reveal_strlit("return");
    reveal_strlit("escape");
    reveal_strlit("esc");
    reveal_strlit("tab");
    reveal_strlit("backspace");
    reveal_strlit("delete");
    reveal_strlit("insert");
    reveal_strlit("home");
    reveal_strlit("end");
    reveal_strlit("pageup");
    reveal_strlit("pagedown");
    reveal_strlit("up");
    reveal_strlit("arrowup");
    reveal_strlit("down");
    reveal_strlit("arrowdown");
    reveal_strlit("left");
    reveal_strlit("arrowleft");
    reveal_strlit("right");
    let t = spec_vk_token(vk);
    lemma_lower_seq_char(t);
    assert(lower_seq(t) =~= t);
    assert(trim_front(t) == t);
    assert(trim_back(t) == t);
}

/// The token sequences of a key list, in order.
pub open spec fn token_list(ks: Seq<i32>) -> Seq<Seq<char>>
    decreases ks.len(),
{
    if ks.len() == 0 {
        Seq::empty()
    } else {
        seq![spec_vk_token(ks[0])] + token_list(ks.drop_first())
    }
}

/// Splitting a token followed by `+` and a remainder yields the token
/// and the split of the remainder.
pub proof fn lemma_split_plus_cons(t: Seq<char>, u: Seq<char>)
    requires
        forall|j: int| 0 <= j < t.len() ==> t[j] != '+',
    ensures
        split_plus(t + seq!['+'] + u) == seq![t] + split_plus(u),
{
    let s = t + seq!['+'] + u;
    assert(s[t.len() as int] == '+');
    assert(forall|j: int| 0 <= j < t.len() ==> s[j] == t[j]);
    lemma_first_plus_at(s, t.len() as int);
    assert(s.subrange(0, t.len() as int) =~= t);
    assert(s.subrange(t.len() as int + 1, s.len() as int) =~= u);
}

/// The formatted string of a non-empty key list splits back into the
/// token list of its keys.
pub proof fn lemma_format_splits(ks: Seq<i32>)
    requires
        ks.len() > 0,
        forall|j: int| 0 <= j < ks.len() ==> valid_vk(#[trigger] ks[j]),
    ensures
        split_plus(spec_format_keys(ks)) == token_list(ks),
    decreases ks.len(),
{
    let t = spec_vk_token(ks[0]);
    lemma_token_roundtrip(ks[0]);
    if ks.len() == 1 {
        assert(spec_format_keys(ks) == t + format_rest(ks.drop_first()));
        assert(format_rest(ks.drop_first()) == Seq::<char>::empty());
        assert(spec_format_keys(ks) =~= t);
        lemma_first_plus_none(t);
        assert(split_plus(t) == seq![t]);
        assert(ks.drop_first().len() == 0);
        assert(token_list(ks.drop_first()) == Seq::<Seq<char>>::empty());
        assert(token_list(ks) =~= seq![t]);
    } else {
        let rest = ks.drop_first();
        assert(forall|j: int| 0 <= j < rest.len() ==> valid_vk(#[trigger] rest[j])) by {
            assert(forall|j: int| 0 <= j < rest.len() ==> rest[j] == ks[j + 1]);
        }
        lemma_format_splits(rest);
        assert(format_rest(rest) == seq!['+'] + spec_vk_token(rest[0]) + format_rest(
            rest.drop_first()));
        assert(spec_format_keys(rest) == spec_vk_token(rest[0]) + format_rest(
            rest.drop_first()));
        assert(spec_format_keys(ks) =~= t + seq!['+'] + spec_format_keys(rest));
        lemma_split_plus_cons(t, spec_format_keys(rest));
        assert(split_plus(spec_format_keys(ks)) == seq![t] + split_plus(spec_format_keys(
            rest)));
        assert(seq![t] + token_list(rest) =~= token_list(ks));
    }
}

/// Parsing the token list of valid keys recovers exactly those keys.
pub proof fn lemma_parse_token_list(ks: Seq<i32>)
    requires
        forall|j: int| 0 <= j < ks.len() ==> valid_vk(#[trigger] ks[j]),
    ensures
        parse_tokens(token_list(ks)) == Some(ks),
    decreases ks.len(),
{
    if ks.len() == 0 {
        assert(parse_tokens(token_list(ks)) =~= Some(Seq::<i32>::empty()));
        assert(ks =~= Seq::<i32>::empty());
    } else {
        let t = spec_vk_token(ks[0]);
        lemma_token_roundtrip(ks[0]);
        let rest = ks.drop_first();
        assert(forall|j: int| 0 <= j < rest.len() ==> valid_vk(#[trigger] rest[j])) by {
            assert(forall|j: int| 0 <= j < rest.len() ==> rest[j] == ks[j + 1]);
        }
        lemma_parse_token_list(rest);
        assert(token_list(ks)[0] == t);
        assert(token_list(ks).drop_first() =~= token_list(rest));
        assert(lower_seq(trim_blanks(t)) == t);
        assert(t.len() > 0);
        assert(spec_token_to_vk(t) == Some(ks[0]));
        assert(seq![ks[0]] + rest =~= ks);
    }
}

/// `canon_insert` keeps a canonical sequence canonical, and introduces
/// no key but the inserted one.
pub proof fn lemma_canon_insert_canonical(ks: Seq<i32>, vk: i32)
    requires
        canonical_keys(ks),
    ensures
        canonical_keys(canon_insert(ks, vk)),
        forall|j: int|
            0 <= j < canon_insert(ks, vk).len() ==> canon_insert(ks, vk)[j] == vk
                || ks.contains(#[trigger] canon_insert(ks, vk)[j]),
    decreases ks.len(),
{
    let out = canon_insert(ks, vk);
    if ks.len() == 0 {
    } else if vk_rank(vk) < vk_rank(ks[0]) {
        assert(out == seq![vk] + ks);
        assert(forall|j: int| 1 <= j < out.len() ==> out[j] == ks[j - 1]);
        assert(canonical_keys(out)) by {
            assert(forall|i: int, j: int|
                1 <= i < j < out.len() ==> vk_rank(#[trigger] out[i]) < vk_rank(#[trigger] out[j]));
            assert(forall|j: int| 1 <= j < out.len() ==> vk_rank(out[0]) < vk_rank(#[trigger] out[j]))
                by {
                assert(forall|j: int| 1 <= j < ks.len() ==> vk_rank(ks[0]) < vk_rank(#[trigger] ks[j]));
            }
        }
    } else if vk_rank(vk) == vk_rank(ks[0]) {
    } else {
        let rest = ks.drop_first();
        assert(canonical_keys(rest)) by {
            assert(forall|j: int| 0 <= j < rest.len() ==> rest[j] == ks[j + 1]);
        }
        lemma_canon_insert_canonical(rest, vk);
        let sub = canon_insert(rest, vk);
        assert(out == seq![ks[0]] + sub);
        assert(forall|j: int| 1 <= j < out.len() ==> out[j] == sub[j - 1]);
        assert(forall|j: int| 0 <= j < rest.len() ==> rest[j] == ks[j + 1]);
        assert(forall|j: int| 0 <= j < sub.len() ==> vk_rank(ks[0]) < vk_rank(#[trigger] sub[j])) by {
            assert(forall|j: int| 0 <= j < rest.len() ==> vk_rank(ks[0]) < vk_rank(#[trigger] rest[j]));
            assert(forall|j: int| 0 <= j < sub.len() ==> sub[j] == vk || rest.contains(
                #[trigger] sub[j]));
            assert(forall|x: i32| rest.contains(x) ==> vk_rank(ks[0]) < vk_rank(x)) by {
                assert forall|x: i32| rest.contains(x) implies vk_rank(ks[0]) < vk_rank(x) by {
                    let w = choose|w: int| 0 <= w < rest.len() && rest[w] == x;
                }
            }
        }
        assert(canonical_keys(out));
        assert(forall|j: int|
            0 <= j < out.len() ==> out[j] == vk || ks.contains(#[trigger] out[j])) by {
            assert(ks.contains(ks[0]));
            assert forall|j: int| 1 <= j < out.len() implies out[j] == vk || ks.contains(
                out[j]) by {
                if out[j] != vk {
                    assert(rest.contains(out[j]));
                    let w = choose|w: int| 0 <= w < rest.len() && rest[w] == out[j];
                    assert(ks[w + 1] == out[j]);
                }
            }
        }
    }
}

/// Canonicalization yields a canonical sequence whose keys all come
/// from the input.
pub proof fn lemma_canonicalize_canonical(ks: Seq<i32>)
    ensures
        canonical_keys(canonicalize(ks)),
        forall|j: int|
            0 <= j < canonicalize(ks).len() ==> ks.contains(#[trigger] canonicalize(ks)[j]),
    decreases ks.len(),
{
    if ks.len() > 0 {
        let pre = ks.drop_last();
        lemma_canonicalize_canonical(pre);
        lemma_canon_insert_canonical(canonicalize(pre), ks.last());
        assert forall|j: int|
            0 <= j < canonicalize(ks).len() implies ks.contains(#[trigger] canonicalize(
            ks)[j]) by {
            let x = canonicalize(ks)[j];
            assert(ks.contains(ks.last())) by {
                assert(ks[ks.len() - 1] == ks.last());
            }
            if x != ks.last() {
                assert(canonicalize(pre).contains(x) || x == ks.last());
                if canonicalize(pre).contains(x) {
                    let w = choose|w: int|
                        0 <= w < canonicalize(pre).len() && canonicalize(pre)[w] == x;
                    assert(pre.contains(x));
                    let v = choose|v: int| 0 <= v < pre.len() && pre[v] == x;
                    assert(ks[v] == x);
                }
            }
        }
    }
}

/// Canonicalization is the identity on canonical sequences.
pub proof fn lemma_canonicalize_identity(ks: Seq<i32>)
    requires
        canonical_keys(ks),
    ensures
        canonicalize(ks) == ks,
    decreases ks.len(),
{
    if ks.len() > 0 {
        let pre = ks.drop_last();
        assert(canonical_keys(pre)) by {
            assert(forall|j: int| 0 <= j < pre.len() ==> pre[j] == ks[j]);
        }
        lemma_canonicalize_identity(pre);
        assert(forall|j: int| 0 <= j < pre.len() ==> vk_rank(#[trigger] pre[j]) < vk_rank(ks.last()))
            by {
            assert(forall|j: int| 0 <= j < pre.len() ==> pre[j] == ks[j]);
            assert(ks[ks.len() - 1] == ks.last());
        }
        lemma_canon_insert_at(pre, ks.last(), pre.len() as int);
        assert(pre.subrange(0, pre.len() as int) =~= pre);
        assert(pre.subrange(pre.len() as int, pre.len() as int) =~= Seq::<i32>::empty());
        assert(pre + seq![ks.last()] + Seq::<i32>::empty() =~= ks);
    }
}

/// Every key the parsing table yields is a valid portable key.
pub proof fn lemma_token_vk_valid(t: Seq<char>)
    ensures
        spec_token_to_vk(t) matches Some(vk) ==> valid_vk(vk),
{
}

/// Every key in a parsed token list is valid.
pub proof fn lemma_parse_tokens_valid(ts: Seq<Seq<char>>)
    ensures
        parse_tokens(ts) matches Some(ks) ==> forall|j: int|
            0 <= j < ks.len() ==> valid_vk(#[trigger] ks[j]),
    decreases ts.len(),
{
    if ts.len() > 0 {
        lemma_parse_tokens_valid(ts.drop_first());
        let norm = lower_seq(trim_blanks(ts[0]));
        if norm.len() > 0 {
            lemma_token_vk_valid(norm);
            match spec_token_to_vk(norm) {
                None => {},
                Some(vk) => match parse_tokens(ts.drop_first()) {
                    None => {},
                    Some(rest) => {
                        let ks = seq![vk] + rest;
                        assert(forall|j: int| 1 <= j < ks.len() ==> ks[j] == rest[j - 1]);
                    },
                },
            }
        }
    }
}

/// The parsed key set of any binding string is canonical and holds only
/// valid keys.
pub proof fn lemma_parse_binding_wf(s: Seq<char>)
    ensures
        canonical_keys(spec_parse_binding(s)),
        forall|j: int|
            0 <= j < spec_parse_binding(s).len() ==> valid_vk(#[trigger] spec_parse_binding(
                s)[j]),
{
    lemma_parse_tokens_valid(split_plus(s));
    match parse_tokens(split_plus(s)) {
        None => {},
        Some(ks) => {
            lemma_canonicalize_canonical(ks);
            assert forall|j: int|
                0 <= j < spec_parse_binding(s).len() implies valid_vk(
                #[trigger] spec_parse_binding(s)[j]) by {
                assert(ks.contains(spec_parse_binding(s)[j]));
                let w = choose|w: int| 0 <= w < ks.len() && ks[w] == spec_parse_binding(s)[j];
            }
        },
    }
}

/// Parsing inverts formatting on canonical key sets of valid keys.
pub proof fn lemma_parse_format_roundtrip(ks: Seq<i32>)
    requires
        canonical_keys(ks),
        forall|j: int| 0 <= j < ks.len() ==> valid_vk(#[trigger] ks[j]),
    ensures
        spec_parse_binding(spec_format_keys(ks)) == ks,
{
    if ks.len() == 0 {
        let empty = Seq::<char>::empty();
        assert(spec_format_keys(ks) == empty);
        assert(first_plus(empty) == -1);
        assert(split_plus(empty) == seq![empty]);
        assert(trim_blanks(empty) == empty);
        assert(lower_seq(empty) == Seq::<char>::empty());
        assert(seq![empty].drop_first() =~= Seq::<Seq<char>>::empty());
        assert(parse_tokens(split_plus(empty)) == Some(Seq::<i32>::empty()));
        assert(spec_parse_binding(spec_format_keys(ks)) =~= ks);
    } else {
        lemma_format_splits(ks);
        lemma_parse_token_list(ks);
        lemma_canonicalize_identity(ks);
    }
}

/// Parse-then-format has a fixed point after one round: re-parsing and
/// re-formatting a canonical binding string changes nothing. This holds
/// for every input string, also those whose parse is rejected.
pub proof fn lemma_parse_format_fixed_point(s: Seq<char>)
    ensures
        spec_parse_binding(spec_format_keys(spec_parse_binding(s))) == spec_parse_binding(s),
        spec_format_keys(spec_parse_binding(spec_format_keys(spec_parse_binding(s))))
            == spec_format_keys(spec_parse_binding(s)),
{
    lemma_parse_binding_wf(s);
    lemma_parse_format_roundtrip(spec_parse_binding(s));
}

} // verus!
