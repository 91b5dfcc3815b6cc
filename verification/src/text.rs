//! Tests on texts.

use vstd::prelude::*;
use vstd::string::StringExecFns;

verus! {

/// Whether `needle` occurs in `text` as a run of characters.
pub open spec fn occurs_in(text: Seq<char>, needle: Seq<char>) -> bool {
    exists|at: int|
        0 <= at && at + needle.len() <= text.len() && #[trigger] text.subrange(
            at,
            at + needle.len(),
        ) == needle
}

/// Whether `text` ends in `suffix`.
pub open spec fn ends_in(text: Seq<char>, suffix: Seq<char>) -> bool {
    suffix.len() <= text.len() && text.subrange(text.len() - suffix.len(), text.len() as int)
        == suffix
}

/// Calls `str::contains` with a string pattern: whether the pattern occurs
/// in the text.
#[verifier::external_body]
pub(crate) fn text_contains(text: &str, needle: &str) -> (found: bool)
    ensures
        found == occurs_in(text@, needle@),
{
    text.contains(needle)
}

/// Calls `str::ends_with` with a string pattern: whether the text ends in
/// the pattern.
#[verifier::external_body]
pub(crate) fn text_ends_with(text: &str, suffix: &str) -> (found: bool)
    ensures
        found == ends_in(text@, suffix@),
{
    text.ends_with(suffix)
}

/// Tests two texts for equality.
pub fn same_text(a: &str, b: &str) -> (same: bool)
    ensures
        same == (a@ == b@),
{
    String::from_str(a) == String::from_str(b)
}

/// Whether a word is among the words from place `from` up to place `to`.
pub open spec fn has_word(words: Seq<String>, from: int, to: int, word: Seq<char>) -> bool {
    exists|i: int| from <= i < to && (#[trigger] words[i])@ == word
}

/// The first place at or after `from` and before `to` at which a word
/// stands, or `to` when it stands at none.
pub open spec fn first_place(words: Seq<String>, from: int, to: int, word: Seq<char>) -> int
    decreases to - from,
{
    if from >= to {
        to
    } else if words[from]@ == word {
        from
    } else {
        first_place(words, from + 1, to, word)
    }
}

/// The first place of a word is a place where it stands, with none before
/// it; and it is the end exactly when the word stands nowhere.
pub proof fn lemma_first_place(words: Seq<String>, from: int, to: int, word: Seq<char>)
    requires
        0 <= from <= to <= words.len(),
    ensures
        from <= first_place(words, from, to, word) <= to,
        first_place(words, from, to, word) < to ==> words[first_place(words, from, to, word)]@
            == word,
        forall|i: int| from <= i < first_place(words, from, to, word) ==> (#[trigger] words[i])@ != word,
        first_place(words, from, to, word) < to <==> has_word(words, from, to, word),
    decreases to - from,
{
    if from < to && words[from]@ != word {
        lemma_first_place(words, from + 1, to, word);
        if has_word(words, from, to, word) {
            let i = choose|i: int| from <= i < to && (#[trigger] words[i])@ == word;
            assert(from + 1 <= i < to);
        }
        if has_word(words, from + 1, to, word) {
            let i = choose|i: int| from + 1 <= i < to && (#[trigger] words[i])@ == word;
            assert(from <= i < to);
        }
    } else if from < to {
        assert(words[from]@ == word);
    }
}

/// Finds the first place among the words from `from` up to `to` at which a
/// word stands; `to` when it stands at none.
pub fn find_word(words: &Vec<String>, from: usize, to: usize, word: &str) -> (place: usize)
    requires
        from <= to <= words@.len(),
    ensures
        place == first_place(words@, from as int, to as int, word@),
        from <= place <= to,
        place < to <==> has_word(words@, from as int, to as int, word@),
{
    proof {
        lemma_first_place(words@, from as int, to as int, word@);
    }
    let mut i: usize = from;
    while i < to
        invariant
            from <= i <= to <= words@.len(),
            first_place(words@, from as int, to as int, word@) == first_place(
                words@,
                i as int,
                to as int,
                word@,
            ),
        decreases to - i,
    {
        if same_text(words[i].as_str(), word) {
            return i;
        }
        i += 1;
    }
    to
}

} // verus!
