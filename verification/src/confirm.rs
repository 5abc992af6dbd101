//! The answer to the question whether the deletion shall go ahead.
use vstd::prelude::*;

verus! {

/// `text` without the white space at its two ends, as `str::trim` returns
/// it.
pub uninterp spec fn trimmed(text: Seq<char>) -> Seq<char>;

/// `text` in lower case, as `str::to_lowercase` returns it.
pub uninterp spec fn lowercased(text: Seq<char>) -> Seq<char>;

/// Calls `str::trim`. Its result is taken to depend on the characters of
/// `text` alone; nothing is claimed of what it holds.
#[verifier::external_body]
fn trim(text: &str) -> (inner: &str)
    ensures
        inner@ == trimmed(text@),
{
    text.trim()
}

/// Calls `str::to_lowercase`. Its result is taken to depend on the
/// characters of `text` alone; nothing is claimed of what it holds.
#[verifier::external_body]
fn lowercase(text: &str) -> (lower: String)
    ensures
        lower@ == lowercased(text@),
{
    text.to_lowercase()
}

/// Whether `answer` is one of the two words that say yes.
pub open spec fn is_yes(answer: Seq<char>) -> bool {
    answer == seq!['y'] || answer == seq!['y', 'e', 's']
}

/// Whether an answer that has been trimmed and put in lower case says yes:
/// it does if it is `y` or `yes`, and nothing else does.
pub fn says_yes(answer: &String) -> (yes: bool)
    ensures
        yes == is_yes(answer@),
{
    proof {
        reveal_strlit("y");
        reveal_strlit("yes");
    }
    let short = String::from_str("y");
    let long = String::from_str("yes");
    assert(short@ =~= seq!['y']);
    assert(long@ =~= seq!['y', 'e', 's']);
    *answer == short || *answer == long
}

/// Whether the line that was typed at the prompt confirms the deletion:
/// white space around it and the case of its letters do not count, and what
/// is left must be `y` or `yes`. An empty line, and anything else, declines.
pub fn confirms(line: &str) -> (yes: bool)
    ensures
        yes == is_yes(lowercased(trimmed(line@))),
{
    let answer = lowercase(trim(line));
    says_yes(&answer)
}

} // verus!
