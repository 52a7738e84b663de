//! Small helpers on text that the rest of the crate shares.
use vstd::prelude::*;

verus! {

/// Tells whether two string slices hold the same characters.
pub fn same_text(a: &str, b: &str) -> (same: bool)
    ensures
        same == (a@ == b@),
{
    let left = a.to_owned();
    let right = b.to_owned();
    left == right
}

/// Copies the characters `from..to` of `text` into a new string.
pub fn slice_text(text: &str, from: usize, to: usize) -> (part: String)
    requires
        from <= to <= text@.len(),
    ensures
        part@ == text@.subrange(from as int, to as int),
{
    text.substring_char(from, to).to_owned()
}

/// Joins two pieces of text into a new string.
pub fn concat_text(head: &str, tail: &str) -> (joined: String)
    ensures
        joined@ == head@ + tail@,
{
    let mut joined = head.to_owned();
    joined.append(tail);
    joined
}

} // verus!
