//! Custom formatting of finished transcriptions: the rule records the
//! user edits, and the built-in fix-ups that run over the text.

use vstd::prelude::*;
use vstd::string::StrSliceExecFns;
use crate::text::chars_of;

verus! {

/// One find-and-replace rule configured by the user.
#[derive(Clone, Debug)]
pub struct FormattingRule {
    /// Unique identifier of the rule.
    pub id: String,
    /// The text to search for.
    pub trigger: String,
    /// The text to replace it with.
    pub replacement: String,
    /// Whether the rule is currently active.
    pub enabled: bool,
    /// Exact text match only, as opposed to also consuming surrounding
    /// punctuation and spaces.
    pub exact_match: bool,
}

/// What one character contributes to the spaced text: `?` and `!` gain
/// a space before them unless one is already there.
pub open spec fn spaced_at(s: Seq<char>, i: int) -> Seq<char> {
    if (s[i] == '?' || s[i] == '!') && i > 0 && s[i - 1] != ' ' && s[i - 1] != '\n' && s[i
        - 1] != '\t' {
        seq![' ', s[i]]
    } else {
        seq![s[i]]
    }
}

/// The first `n` characters of the text, with spaces added before
/// punctuation.
pub open spec fn spaced_prefix(s: Seq<char>, n: int) -> Seq<char>
    decreases n,
{
    if n <= 0 {
        Seq::empty()
    } else {
        spaced_prefix(s, n - 1) + spaced_at(s, n - 1)
    }
}

/// Add a space before every `?` and `!` that directly follows a
/// non-space character.
pub fn add_space_before_punctuation(text: &str) -> (r: String)
    ensures
        r@ == spaced_prefix(text@, text@.len() as int),
{
    let chars = chars_of(text);
    let len = chars.len();
    let mut result = String::new();
    let mut i: usize = 0;
    while i < len
        invariant
            i <= len,
            chars@ == text@,
            len == text@.len(),
            result@ == spaced_prefix(text@, i as int),
        decreases len - i,
    {
        let c = chars[i];
        if (c == '?' || c == '!') && i > 0 {
            let prev = chars[i - 1];
            if prev != ' ' && prev != '\n' && prev != '\t' {
                result.push(' ');
            }
        }
        result.push(c);
        proof {
            assert(result@ =~= spaced_prefix(text@, i + 1 as int));
        }
        i = i + 1;
    }
    result
}

/// Append a trailing space unless the text already ends in a space or
/// a line break.
pub fn ensure_trailing_space(text: String) -> (r: String)
    ensures
        ({
            let keeps = text@.len() > 0 && (text@.last() == ' ' || text@.last() == '\n');
            if keeps {
                r@ == text@
            } else {
                r@ == text@.push(' ')
            }
        }),
{
    let len = text.as_str().unicode_len();
    if len > 0 {
        let last = text.as_str().get_char(len - 1);
        if last == ' ' || last == '\n' {
            return text;
        }
    }
    let mut out = text;
    out.push(' ');
    out
}

} // verus!
