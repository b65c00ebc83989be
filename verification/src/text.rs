//! Searching and trimming text.
//!
//! The two functions at the end call the standard library and are not proved: their contracts
//! say, over the spec functions of this file, what its documentation says.

use vstd::prelude::*;

verus! {

/// Whether `needle` occurs in `haystack` as a run of consecutive characters.
pub open spec fn occurs_in(needle: Seq<char>, haystack: Seq<char>) -> bool {
    exists|start: int|
        0 <= start && start + needle.len() <= haystack.len() && #[trigger] haystack.subrange(
            start,
            start + needle.len(),
        ) == needle
}

/// `text` without its leading characters that are in `strip`.
pub open spec fn trimmed_start(text: Seq<char>, strip: Set<char>) -> Seq<char>
    decreases text.len(),
{
    if text.len() > 0 && strip.contains(text.first()) {
        trimmed_start(text.drop_first(), strip)
    } else {
        text
    }
}

/// `text` without its trailing characters that are in `strip`.
pub open spec fn trimmed_end(text: Seq<char>, strip: Set<char>) -> Seq<char>
    decreases text.len(),
{
    if text.len() > 0 && strip.contains(text.last()) {
        trimmed_end(text.drop_last(), strip)
    } else {
        text
    }
}

/// `text` without the characters of `strip` that wrap it on either side.
pub open spec fn trimmed(text: Seq<char>, strip: Set<char>) -> Seq<char> {
    trimmed_end(trimmed_start(text, strip), strip)
}

/// Whether some text of `list` equals `text`.
pub open spec fn lists_text(list: Seq<String>, text: Seq<char>) -> bool {
    exists|i: int| 0 <= i < list.len() && (#[trigger] list[i])@ == text
}

/// Whether `text` is among `list`.
pub fn contains_text(list: &Vec<String>, text: &String) -> (found: bool)
    ensures
        found == lists_text(list@, text@),
{
    let mut i: usize = 0;
    while i < list.len()
        invariant
            i <= list.len(),
            forall|j: int| 0 <= j < i ==> (#[trigger] list@[j])@ != text@,
        decreases list.len() - i,
    {
        if list[i] == *text {
            return true;
        }
        i = i + 1;
    }
    false
}

/// `str::contains` with a string pattern: whether the pattern matches a sub-slice of the
/// text.
#[verifier::external_body]
pub(crate) fn str_contains(haystack: &str, needle: &str) -> (found: bool)
    ensures
        found == occurs_in(needle@, haystack@),
{
    haystack.contains(needle)
}

/// `str::trim_matches` with a pattern of two characters: the text with every prefix and
/// suffix that matches the pattern removed, repeatedly.
#[verifier::external_body]
pub(crate) fn trim_wrapping<'a>(text: &'a str, first: char, second: char) -> (inner: &'a str)
    ensures
        inner@ == trimmed(text@, set![first, second]),
{
    text.trim_matches([first, second])
}

} // verus!
