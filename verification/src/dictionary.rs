//! The custom dictionary: the words the recognizer should prefer, each
//! with the languages it applies to, and the validation of imported
//! word lists.
//!
//! A word list arrives as comma-separated text. Around each word,
//! blanks are trimmed; empty entries are skipped; a word with any
//! non-alphabetic character rejects the import; accepted words are
//! stored lower-cased.

use vstd::prelude::*;
use crate::binding::{char_is_blank, is_blank, lemma_trim_at, trim_blanks};
use crate::text::chars_of;

verus! {

/// Why an imported word list was rejected.
#[derive(Debug)]
pub enum DictionaryError {
    /// A word holds a character that is not alphabetic; the offending
    /// word is carried along.
    InvalidWordFormat(String),
    /// No word is left once empty entries are skipped.
    EmptyDictionary,
}

/// Whether a character counts as alphabetic. Relies on
/// `char::is_alphabetic`: the result depends on the character alone.
pub uninterp spec fn char_alphabetic(c: char) -> bool;

pub assume_specification[ char::is_alphabetic ](c: char) -> (r: bool)
    ensures
        r == char_alphabetic(c),
;

/// The lower-cased form of a string. Relies on `str::to_lowercase`: the
/// result depends on the characters alone.
pub uninterp spec fn unicode_lower(s: Seq<char>) -> Seq<char>;

/// Relies on `str::to_lowercase` for the full Unicode lowering of a
/// word.
#[verifier::external_body]
fn lowercase_str(s: &str) -> (r: String)
    ensures
        r@ == unicode_lower(s@),
{
    s.to_lowercase()
}

/// Index of the first comma, or `-1`.
pub open spec fn first_comma(s: Seq<char>) -> int
    decreases s.len(),
{
    if s.len() == 0 {
        -1
    } else if s[0] == ',' {
        0
    } else {
        let r = first_comma(s.drop_first());
        if r < 0 {
            -1
        } else {
            r + 1
        }
    }
}

/// A sequence without commas has no first comma.
pub proof fn lemma_first_comma_none(s: Seq<char>)
    requires
        forall|j: int| 0 <= j < s.len() ==> s[j] != ',',
    ensures
        first_comma(s) == -1,
    decreases s.len(),
{
    if s.len() > 0 {
        assert(forall|j: int| 0 <= j < s.drop_first().len() ==> s.drop_first()[j] != ',') by {
            assert(forall|j: int| 0 <= j < s.drop_first().len() ==> s.drop_first()[j] == s[j + 1]);
        }
        lemma_first_comma_none(s.drop_first());
    }
}

/// If position `i` holds the first comma, `first_comma` finds it.
pub proof fn lemma_first_comma_at(s: Seq<char>, i: int)
    requires
        0 <= i < s.len(),
        s[i] == ',',
        forall|j: int| 0 <= j < i ==> s[j] != ',',
    ensures
        first_comma(s) == i,
    decreases i,
{
    if i > 0 {
        assert(forall|j: int| 0 <= j < i - 1 ==> s.drop_first()[j] != ',') by {
            assert(forall|j: int| 0 <= j < s.drop_first().len() ==> s.drop_first()[j] == s[j + 1]);
        }
        assert(s.drop_first()[i - 1] == ',');
        lemma_first_comma_at(s.drop_first(), i - 1);
    }
}

/// Split a word list at every comma, keeping empty pieces.
pub open spec fn split_comma(s: Seq<char>) -> Seq<Seq<char>>
    decreases s.len(),
{
    let i = first_comma(s);
    if !(0 <= i < s.len()) {
        seq![s]
    } else {
        seq![s.subrange(0, i)] + split_comma(s.subrange(i + 1, s.len() as int))
    }
}

/// The first trimmed word holding a non-alphabetic character, if any.
pub open spec fn first_invalid_word(ws: Seq<Seq<char>>) -> Option<Seq<char>>
    decreases ws.len(),
{
    if ws.len() == 0 {
        None
    } else {
        let t = trim_blanks(ws[0]);
        if t.len() > 0 && exists|j: int| 0 <= j < t.len() && !char_alphabetic(t[j]) {
            Some(t)
        } else {
            first_invalid_word(ws.drop_first())
        }
    }
}

/// The accepted words of a list whose entries are all valid: trimmed,
/// empty entries skipped, lower-cased.
pub open spec fn collect_words(ws: Seq<Seq<char>>) -> Seq<Seq<char>>
    decreases ws.len(),
{
    if ws.len() == 0 {
        Seq::empty()
    } else {
        let t = trim_blanks(ws[0]);
        let rest = collect_words(ws.drop_first());
        if t.len() == 0 {
            rest
        } else {
            seq![unicode_lower(t)] + rest
        }
    }
}

/// Both validation scans distribute over concatenation.
pub proof fn lemma_words_concat(a: Seq<Seq<char>>, b: Seq<Seq<char>>)
    ensures
        first_invalid_word(a + b) == if first_invalid_word(a) is Some {
            first_invalid_word(a)
        } else {
            first_invalid_word(b)
        },
        collect_words(a + b) == collect_words(a) + collect_words(b),
    decreases a.len(),
{
    if a.len() == 0 {
        assert(a + b =~= b);
        assert(collect_words(a) + collect_words(b) =~= collect_words(b));
    } else {
        assert((a + b)[0] == a[0]);
        assert((a + b).drop_first() =~= a.drop_first() + b);
        lemma_words_concat(a.drop_first(), b);
        let t = trim_blanks(a[0]);
        if !(t.len() > 0 && exists|j: int| 0 <= j < t.len() && !char_alphabetic(t[j])) {
            if t.len() == 0 {
            } else {
                assert(seq![unicode_lower(t)] + (collect_words(a.drop_first()) + collect_words(
                    b)) =~= (seq![unicode_lower(t)] + collect_words(a.drop_first()))
                    + collect_words(b));
            }
        }
    }
}

/// Validate an imported comma-separated word list. Entries are trimmed
/// and empty ones skipped; the first word with a non-alphabetic
/// character is rejected as [`DictionaryError::InvalidWordFormat`]; a
/// list with no words left is [`DictionaryError::EmptyDictionary`];
/// otherwise the words are returned lower-cased, in order.
pub fn validate_dictionary_format(new_dictionary: String) -> (r: Result<
    Vec<String>,
    DictionaryError,
>)
    ensures
        ({
            let ws = split_comma(new_dictionary@);
            match r {
                Ok(v) => {
                    &&& first_invalid_word(ws) is None
                    &&& v@.len() == collect_words(ws).len() > 0
                    &&& forall|i: int|
                        0 <= i < v@.len() ==> (#[trigger] v@[i])@ == collect_words(ws)[i]
                },
                Err(DictionaryError::InvalidWordFormat(w)) => first_invalid_word(ws)
                    == Some(w@),
                Err(DictionaryError::EmptyDictionary) => {
                    &&& first_invalid_word(ws) is None
                    &&& collect_words(ws).len() == 0
                },
            }
        }),
{
    let s = new_dictionary.as_str();
    let chars = chars_of(s);
    let len = chars.len();
    let ghost full = s@;
    let mut valid_words: Vec<String> = Vec::new();
    let ghost mut done: Seq<Seq<char>> = Seq::empty();
    let mut pos: usize = 0;
    let mut finished = false;
    proof {
        assert(full.subrange(0, len as int) =~= full);
        assert(Seq::<Seq<char>>::empty() + split_comma(full) =~= split_comma(full));
        assert(collect_words(done) =~= Seq::<Seq<char>>::empty());
    }
    while !finished
        invariant
            full == new_dictionary@,
            chars@ == full,
            len == full.len(),
            pos <= len,
            !finished ==> split_comma(full) == done + split_comma(full.subrange(pos as int,
                len as int)),
            finished ==> split_comma(full) == done,
            first_invalid_word(done) is None,
            valid_words@.len() == collect_words(done).len(),
            forall|i: int|
                0 <= i < valid_words@.len() ==> (#[trigger] valid_words@[i])@ == collect_words(
                    done)[i],
        decreases len - pos + (if finished { 0int } else { 1int }),
    {
        let ghost pos0 = pos as int;
        let ghost suffix = full.subrange(pos0, len as int);
        // Find the end of the current entry.
        let mut j: usize = pos;
        while j < len && chars[j] != ','
            invariant
                pos <= j <= len,
                chars@ == full,
                len == full.len(),
                forall|k: int| pos <= k < j ==> full[k] != ',',
            decreases len - j,
        {
            j = j + 1;
        }
        proof {
            assert(forall|k: int| 0 <= k < suffix.len() ==> suffix[k] == full[pos0 + k]);
            if j < len {
                assert(suffix[j - pos0] == ',');
                lemma_first_comma_at(suffix, j - pos0);
            } else {
                lemma_first_comma_none(suffix);
            }
        }
        let ghost entry = suffix.subrange(0, j - pos0);
        proof {
            if j < len {
                assert(split_comma(suffix) == seq![entry] + split_comma(suffix.subrange(
                    j - pos0 + 1, suffix.len() as int)));
            } else {
                assert(entry =~= suffix);
                assert(split_comma(suffix) == seq![entry]);
            }
            assert(forall|k: int| 0 <= k < entry.len() ==> entry[k] == full[pos0 + k]);
        }
        // Trim blanks off both ends of the entry.
        let mut a = pos;
        while a < j && char_is_blank(chars[a])
            invariant
                pos <= a <= j <= len,
                chars@ == full,
                len == full.len(),
                forall|k: int| pos <= k < a ==> is_blank(full[k]),
            decreases j - a,
        {
            a = a + 1;
        }
        let mut b = j;
        while b > a && char_is_blank(chars[b - 1])
            invariant
                a <= b <= j <= len,
                chars@ == full,
                len == full.len(),
                forall|k: int| b <= k < j ==> is_blank(full[k]),
            decreases b - a,
        {
            b = b - 1;
        }
        proof {
            lemma_trim_at(entry, a - pos0, b - pos0);
            assert(trim_blanks(entry).len() == b - a);
            assert(forall|t: int|
                0 <= t < b - a ==> trim_blanks(entry)[t] == full[a + t]);
        }
        if a == b {
            // An empty entry is skipped.
            proof {
                lemma_words_concat(done, seq![entry]);
                assert(seq![entry][0] == entry);
                assert(seq![entry].drop_first() =~= Seq::<Seq<char>>::empty());
                assert(collect_words(Seq::<Seq<char>>::empty()) == Seq::<Seq<char>>::empty());
                assert(first_invalid_word(Seq::<Seq<char>>::empty()) is None);
                assert(collect_words(seq![entry]) =~= Seq::<Seq<char>>::empty());
                assert(first_invalid_word(seq![entry]) is None);
                assert(collect_words(done) + Seq::<Seq<char>>::empty() =~= collect_words(done));
                done = done + seq![entry];
            }
        } else {
            // Check that the word is purely alphabetic, and build it.
            let mut word = String::new();
            let mut ok = true;
            let mut k = a;
            while k < b
                invariant
                    a <= k <= b <= len,
                    chars@ == full,
                    len == full.len(),
                    word@.len() == k - a,
                    forall|t: int| 0 <= t < k - a ==> word@[t] == full[a + t],
                    ok == forall|t: int|
                        a <= t < k ==> char_alphabetic(#[trigger] full[t]),
                decreases b - k,
            {
                let c = chars[k];
                if !c.is_alphabetic() {
                    ok = false;
                }
                word.push(c);
                k = k + 1;
            }
            proof {
                assert(word@ =~= trim_blanks(entry));
            }
            if !ok {
                proof {
                    assert(exists|t: int|
                        0 <= t < trim_blanks(entry).len() && !char_alphabetic(trim_blanks(
                            entry)[t])) by {
                        let t = choose|t: int| a <= t < b && !char_alphabetic(full[t]);
                        assert(trim_blanks(entry)[t - a] == full[t]);
                    }
                    lemma_words_concat(done, split_comma(suffix));
                    assert(split_comma(suffix)[0] == entry);
                    assert(first_invalid_word(split_comma(suffix)) == Some(trim_blanks(entry)));
                    assert(first_invalid_word(split_comma(full)) == Some(trim_blanks(entry)));
                }
                return Err(DictionaryError::InvalidWordFormat(word));
            }
            let lowered = lowercase_str(word.as_str());
            let ghost vw0 = valid_words@;
            valid_words.push(lowered);
            proof {
                lemma_words_concat(done, seq![entry]);
                assert(seq![entry][0] == entry);
                assert(seq![entry].drop_first() =~= Seq::<Seq<char>>::empty());
                assert(collect_words(Seq::<Seq<char>>::empty()) == Seq::<Seq<char>>::empty());
                assert(first_invalid_word(Seq::<Seq<char>>::empty()) is None);
                assert(first_invalid_word(seq![entry]) is None) by {
                    assert(forall|t: int|
                        0 <= t < trim_blanks(entry).len() ==> char_alphabetic(
                            #[trigger] trim_blanks(entry)[t]));
                }
                assert(collect_words(seq![entry]) =~= seq![unicode_lower(trim_blanks(entry))]);
                done = done + seq![entry];
                assert(forall|i: int|
                    0 <= i < vw0.len() ==> valid_words@[i] == vw0[i]);
                assert(valid_words@[vw0.len() as int]@ == unicode_lower(trim_blanks(entry)));
            }
        }
        // Step past the separator, or finish after the last entry.
        if j < len {
            pos = j + 1;
            proof {
                assert(suffix.subrange(j - pos0 + 1, suffix.len() as int) =~= full.subrange(
                    pos as int, len as int));
            }
        } else {
            finished = true;
        }
    }
    if valid_words.len() == 0 {
        return Err(DictionaryError::EmptyDictionary);
    }
    Ok(valid_words)
}

/// One dictionary entry: a word and the languages it applies to.
pub struct DictionaryEntry {
    pub word: String,
    pub languages: Vec<String>,
}

/// The words the recognizer should prefer, with their languages. The
/// application owns one value and serializes access to it; words are
/// unique.
pub struct Dictionary {
    entries: Vec<DictionaryEntry>,
}

/// Entry `x` carries the same word and languages as entry `y`.
pub open spec fn entry_like(x: DictionaryEntry, y: DictionaryEntry) -> bool {
    &&& x.word@ == y.word@
    &&& x.languages@.len() == y.languages@.len()
    &&& forall|j: int|
        0 <= j < x.languages@.len() ==> (#[trigger] x.languages@[j])@ == y.languages@[j]@
}

/// Some entry carries this word.
pub open spec fn has_word(entries: Seq<DictionaryEntry>, word: Seq<char>) -> bool {
    exists|i: int| 0 <= i < entries.len() && (#[trigger] entries[i]).word@ == word
}

/// The word is among the imported ones.
pub open spec fn word_listed(words: Seq<String>, word: Seq<char>) -> bool {
    exists|w: int| 0 <= w < words.len() && (#[trigger] words[w])@ == word
}

impl Dictionary {
    pub closed spec fn spec_entries(self) -> Seq<DictionaryEntry> {
        self.entries@
    }

    pub fn new(dictionary: Vec<DictionaryEntry>) -> (r: Dictionary)
        ensures
            r.spec_entries() == dictionary@,
    {
        Dictionary { entries: dictionary }
    }

    /// A copy of the entries, word for word.
    pub fn get(&self) -> (r: Vec<DictionaryEntry>)
        ensures
            r@.len() == self.spec_entries().len(),
            forall|i: int|
                0 <= i < r@.len() ==> entry_like(#[trigger] r@[i], self.spec_entries()[i]),
    {
        let mut out: Vec<DictionaryEntry> = Vec::new();
        let mut i: usize = 0;
        while i < self.entries.len()
            invariant
                i <= self.entries@.len(),
                out@.len() == i,
                forall|k: int|
                    0 <= k < i ==> entry_like(#[trigger] out@[k], self.entries@[k]),
            decreases self.entries@.len() - i,
        {
            let e = &self.entries[i];
            let word = e.word.clone();
            let mut languages: Vec<String> = Vec::new();
            let mut j: usize = 0;
            while j < e.languages.len()
                invariant
                    j <= e.languages@.len(),
                    languages@.len() == j,
                    forall|k: int|
                        0 <= k < j ==> (#[trigger] languages@[k])@ == e.languages@[k]@,
                decreases e.languages@.len() - j,
            {
                languages.push(e.languages[j].clone());
                j = j + 1;
            }
            out.push(DictionaryEntry { word, languages });
            i = i + 1;
        }
        out
    }

    pub fn set(&mut self, dictionary: Vec<DictionaryEntry>)
        ensures
            final(self).spec_entries() == dictionary@,
    {
        self.entries = dictionary;
    }

    /// Whether some entry carries this word.
    pub fn contains_word(&self, word: &str) -> (r: bool)
        ensures
            r == has_word(self.spec_entries(), word@),
    {
        let mut i: usize = 0;
        while i < self.entries.len()
            invariant
                i <= self.entries@.len(),
                forall|k: int| 0 <= k < i ==> (#[trigger] self.entries@[k]).word@ != word@,
            decreases self.entries@.len() - i,
        {
            if crate::text::str_eq(self.entries[i].word.as_str(), word) {
                proof {
                    assert((self.spec_entries()[i as int]).word@ == word@);
                }
                return true;
            }
            i = i + 1;
        }
        false
    }

    /// Merge imported words into the dictionary: a word already present
    /// keeps its entry untouched, a new word is added with the default
    /// language pair. Existing entries keep their order and values.
    pub fn merge_words(&mut self, words: Vec<String>)
        ensures
            old(self).spec_entries().len() <= final(self).spec_entries().len(),
            forall|i: int|
                0 <= i < old(self).spec_entries().len() ==> final(self).spec_entries()[i]
                    == old(self).spec_entries()[i],
            // Every added entry carries one of the imported words and
            // the default language pair.
            forall|i: int|
                old(self).spec_entries().len() <= i < final(self).spec_entries().len() ==> {
                    &&& word_listed(words@, (#[trigger] final(self).spec_entries()[i]).word@)
                    &&& final(self).spec_entries()[i].languages@.len() == 2
                    &&& final(self).spec_entries()[i].languages@[0]@ == "english"@
                    &&& final(self).spec_entries()[i].languages@[1]@ == "french"@
                },
            // Afterwards every imported word has an entry.
            forall|w: int|
                0 <= w < words@.len() ==> has_word(final(self).spec_entries(), (
                #[trigger] words@[w])@),
            // A word already present is not added again, and no word is
            // added twice.
            forall|i: int|
                old(self).spec_entries().len() <= i < final(self).spec_entries().len()
                    ==> !has_word(old(self).spec_entries(), (#[trigger] final(
                    self).spec_entries()[i]).word@),
            forall|i: int, j: int|
                old(self).spec_entries().len() <= i < j < final(self).spec_entries().len()
                    ==> (#[trigger] final(self).spec_entries()[i]).word@ != (#[trigger] final(
                    self).spec_entries()[j]).word@,
    {
        let ghost base = self.entries@;
        let n = words.len();
        let mut i: usize = 0;
        while i < n
            invariant
                i <= n,
                n == words@.len(),
                base.len() <= self.entries@.len(),
                forall|k: int| 0 <= k < base.len() ==> self.entries@[k] == base[k],
                forall|k: int|
                    base.len() <= k < self.entries@.len() ==> {
                        &&& word_listed(words@, (#[trigger] self.entries@[k]).word@)
                        &&& self.entries@[k].languages@.len() == 2
                        &&& self.entries@[k].languages@[0]@ == "english"@
                        &&& self.entries@[k].languages@[1]@ == "french"@
                    },
                forall|w: int|
                    0 <= w < i ==> has_word(self.entries@, (#[trigger] words@[w])@),
                forall|k: int|
                    base.len() <= k < self.entries@.len() ==> !has_word(base, (
                    #[trigger] self.entries@[k]).word@),
                forall|k1: int, k2: int|
                    base.len() <= k1 < k2 < self.entries@.len() ==> (
                    #[trigger] self.entries@[k1]).word@ != (#[trigger] self.entries@[
                        k2]).word@,
            decreases n - i,
        {
            let word = words[i].clone();
            let present = self.contains_word(word.as_str());
            if present {
                proof {
                    assert(has_word(self.entries@, words@[i as int]@));
                }
            } else {
                let mut languages: Vec<String> = Vec::new();
                languages.push(String::from_str("english"));
                languages.push(String::from_str("french"));
                let ghost before = self.entries@;
                self.entries.push(DictionaryEntry { word, languages });
                proof {
                    assert(forall|k: int|
                        0 <= k < before.len() ==> self.entries@[k] == before[k]);
                    // The word just added was found in no earlier entry.
                    assert(!has_word(base, self.entries@[before.len() as int].word@)) by {
                        if has_word(base, words@[i as int]@) {
                            let q = choose|q: int|
                                0 <= q < base.len() && (#[trigger] base[q]).word@
                                    == words@[i as int]@;
                            assert(before[q].word@ == words@[i as int]@);
                            assert(has_word(before, words@[i as int]@));
                        }
                    }
                    assert forall|k1: int|
                        base.len() <= k1 < before.len() implies (#[trigger] before[k1]).word@
                        != words@[i as int]@ by {
                        if before[k1].word@ == words@[i as int]@ {
                            assert(has_word(before, words@[i as int]@));
                        }
                    }
                    assert((self.entries@[before.len() as int]).word@ == words@[i as int]@);
                    assert(word_listed(words@, self.entries@[before.len() as int].word@));
                    assert(has_word(self.entries@, words@[i as int]@));
                    assert forall|w: int| 0 <= w < i + 1 implies has_word(self.entries@, (
                        #[trigger] words@[w])@) by {
                        if w < i {
                            let k = choose|k: int|
                                0 <= k < before.len() && (#[trigger] before[k]).word@
                                    == words@[w]@;
                            assert(self.entries@[k].word@ == words@[w]@);
                        }
                    }
                }
            }
            i = i + 1;
        }
        proof {
            assert(self.spec_entries() == self.entries@);
        }
    }
}

/// The decimal digits of a number, most significant first.
pub open spec fn dec_digits(n: u64) -> Seq<char>
    decreases n,
{
    if n < 10 {
        seq![((n as u8) + 48) as char]
    } else {
        dec_digits(n / 10) + seq![(((n % 10) as u8) + 48) as char]
    }
}

/// Append the decimal form of a number to a string.
fn push_decimal(out: &mut String, n: u64)
    ensures
        final(out)@ == old(out)@ + dec_digits(n),
    decreases n,
{
    if n >= 10 {
        push_decimal(out, n / 10);
        out.push((((n % 10) as u8) + 48) as char);
        proof {
            assert(out@ =~= old(out)@ + dec_digits(n));
        }
    } else {
        out.push(((n as u8) + 48) as char);
        proof {
            assert(out@ =~= old(out)@ + dec_digits(n));
        }
    }
}

/// The default name of an exported dictionary file.
pub open spec fn base_export_name() -> Seq<char> {
    "murmure-dictionary.csv"@
}

/// The numbered name used when earlier exports are in the way.
pub open spec fn numbered_export_name(i: u64) -> Seq<char> {
    "murmure-dictionary-"@ + dec_digits(i) + ".csv"@
}

/// Whether a name collides with one of the files already present.
pub open spec fn name_taken(taken: Seq<String>, name: Seq<char>) -> bool {
    exists|k: int| 0 <= k < taken.len() && (#[trigger] taken[k])@ == name
}

/// Build the numbered export name.
fn make_numbered_name(i: u64) -> (r: String)
    ensures
        r@ == numbered_export_name(i),
{
    let mut out = String::from_str("murmure-dictionary-");
    push_decimal(&mut out, i);
    out.append(".csv");
    proof {
        assert(out@ =~= numbered_export_name(i));
    }
    out
}

/// Whether the name is among the taken ones.
fn is_name_taken(taken: &Vec<String>, name: &str) -> (r: bool)
    ensures
        r == name_taken(taken@, name@),
{
    let mut k: usize = 0;
    while k < taken.len()
        invariant
            k <= taken@.len(),
            forall|j: int| 0 <= j < k ==> (#[trigger] taken@[j])@ != name@,
        decreases taken@.len() - k,
    {
        if crate::text::str_eq(taken[k].as_str(), name) {
            proof {
                assert(taken@[k as int]@ == name@);
            }
            return true;
        }
        k = k + 1;
    }
    false
}

/// Choose the file name for a dictionary export among the names already
/// present in the target directory: the base name when it is free, else
/// the first free numbered name. More candidate numbers are tried than
/// there are names present, so the search always ends at a free name
/// within the candidate range.
pub fn get_filename(taken: &Vec<String>) -> (r: String)
    requires
        taken@.len() < u64::MAX,
    ensures
        !name_taken(taken@, base_export_name()) ==> r@ == base_export_name(),
        name_taken(taken@, base_export_name()) ==> exists|i: u64|
            {
                &&& 1 <= i
                &&& r@ == numbered_export_name(i)
                &&& forall|j: u64| 1 <= j < i ==> name_taken(taken@, numbered_export_name(j))
                &&& (!name_taken(taken@, numbered_export_name(i)) || i == taken@.len() + 1)
            },
{
    let base = String::from_str("murmure-dictionary.csv");
    if !is_name_taken(taken, base.as_str()) {
        return base;
    }
    let limit: u64 = taken.len() as u64;
    let mut i: u64 = 1;
    while i <= limit
        invariant
            1 <= i <= limit + 1,
            limit < u64::MAX,
            limit == taken@.len(),
            forall|j: u64| 1 <= j < i ==> name_taken(taken@, numbered_export_name(j)),
            name_taken(taken@, base_export_name()),
        decreases limit + 1 - i,
    {
        let candidate = make_numbered_name(i);
        if !is_name_taken(taken, candidate.as_str()) {
            return candidate;
        }
        i = i + 1;
    }
    let candidate = make_numbered_name(i);
    candidate
}

} // verus!
