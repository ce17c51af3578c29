//! The few operations on text that the library takes from the standard
//! library.

use vstd::prelude::*;
use vstd::string::*;

verus! {

/// Whether `pattern` occurs in `text` as a run of consecutive characters.
pub open spec fn occurs_in(pattern: Seq<char>, text: Seq<char>) -> bool {
    exists|i: int|
        0 <= i <= text.len() - pattern.len() && #[trigger] text.subrange(i, i + pattern.len())
            == pattern
}

/// `text` with every match of `from` replaced by `to`, as `str::replace`
/// computes it.
pub uninterp spec fn replaced(text: Seq<char>, from: Seq<char>, to: Seq<char>) -> Seq<char>;

/// `text` without leading and trailing white space, as `str::trim` computes
/// it.
pub uninterp spec fn trimmed(text: Seq<char>) -> Seq<char>;

/// The number that `text` spells in decimal, as `str::parse::<u64>` reads
/// it; nothing where it spells none or one that is too large.
pub uninterp spec fn parsed_u64(text: Seq<char>) -> Option<u64>;

/// The lower-case form of a text, as `str::to_lowercase` computes it.
pub uninterp spec fn lowercased(text: Seq<char>) -> Seq<char>;

/// `String::push`: the character is appended to the text.
pub assume_specification[ String::push ](text: &mut String, c: char)
    ensures
        final(text)@ == old(text)@.push(c),
;

/// `str::to_lowercase`: the result is the lower-case form of the argument,
/// which depends on the text alone.
#[verifier::external_body]
pub(crate) fn to_lowercase(text: &str) -> (lower: String)
    ensures
        lower@ == lowercased(text@),
{
    text.to_lowercase()
}

/// `str::contains` with a text as pattern: whether the pattern occurs in the
/// text.
#[verifier::external_body]
pub(crate) fn contains(text: &str, pattern: &str) -> (found: bool)
    ensures
        found == occurs_in(pattern@, text@),
{
    text.contains(pattern)
}

/// `str::replace` with a text as pattern: the result is the text with every
/// match replaced, which depends on the three texts alone.
#[verifier::external_body]
pub(crate) fn replace(text: &str, from: &str, to: &str) -> (result: String)
    ensures
        result@ == replaced(text@, from@, to@),
{
    text.replace(from, to)
}

/// `str::trim`: the result is the text without leading and trailing white
/// space, which depends on the text alone.
#[verifier::external_body]
pub(crate) fn trim(text: &str) -> (result: String)
    ensures
        result@ == trimmed(text@),
{
    text.trim().to_owned()
}

/// `str::parse::<u64>`: the number that the text spells, or nothing.
#[verifier::external_body]
pub(crate) fn parse_u64(text: &str) -> (number: Option<u64>)
    ensures
        number == parsed_u64(text@),
{
    text.parse::<u64>().ok()
}

/// A text cut in two at a colon.
pub struct ColonSplit {
    /// The text before the colon.
    pub before: String,
    /// The text after the colon.
    pub after: String,
}

/// Whether `text` holds a colon.
pub open spec fn has_colon(text: Seq<char>) -> bool {
    exists|i: int| 0 <= i < text.len() && text[i] == ':'
}

/// Whether `before` and `after` are `text` cut at its first colon.
pub open spec fn is_cut_at_colon(text: Seq<char>, before: Seq<char>, after: Seq<char>) -> bool {
    &&& before + seq![':'] + after == text
    &&& forall|j: int| 0 <= j < before.len() ==> before[j] != ':'
}

/// `str::split_once` at a colon: the text before the first colon and the
/// text after it, or nothing where the text holds no colon.
#[verifier::external_body]
pub(crate) fn split_once_at_colon(text: &str) -> (parts: Option<ColonSplit>)
    ensures
        match parts {
            Some(cut) => has_colon(text@) && is_cut_at_colon(text@, cut.before@, cut.after@),
            None => !has_colon(text@),
        },
{
    text.split_once(':').map(|(before, after)| ColonSplit { before: before.to_owned(), after: after.to_owned() })
}

} // verus!
