//! Comparing and searching runs of characters.

use vstd::prelude::*;

verus! {

/// The characters of `s`, in order.
pub fn chars_of(s: &str) -> (out: Vec<char>)
    ensures
        out@ == s@,
{
    let mut out: Vec<char> = Vec::new();
    for c in it: s.chars()
        invariant
            out@ == s@.take(it.index() as int),
            it.seq() == s@,
    {
        out.push(c);
    }
    out
}

/// Whether two runs of characters are the same.
pub fn same_chars(left: &Vec<char>, right: &Vec<char>) -> (same: bool)
    ensures
        same == (left@ == right@),
{
    if left.len() != right.len() {
        return false;
    }
    let mut i: usize = 0;
    while i < left.len()
        invariant
            i <= left.len(),
            left.len() == right.len(),
            left@.take(i as int) == right@.take(i as int),
        decreases left.len() - i,
    {
        if left[i] != right[i] {
            return false;
        }
        assert(left@.take(i + 1) == left@.take(i as int).push(left@[i as int]));
        assert(right@.take(i + 1) == right@.take(i as int).push(right@[i as int]));
        i += 1;
    }
    assert(left@ == left@.take(i as int));
    assert(right@ == right@.take(i as int));
    true
}

/// Whether two texts hold the same characters in the same order.
pub fn same_text(a: &str, b: &str) -> (same: bool)
    ensures
        same == (a@ == b@),
{
    let left = chars_of(a);
    let right = chars_of(b);
    same_chars(&left, &right)
}

/// Whether `needle` occurs in `text` as a run of consecutive characters. The empty run occurs
/// in every text.
pub open spec fn occurs_in(needle: Seq<char>, text: Seq<char>) -> bool {
    exists|start: int| occurs_at(needle, text, start)
}

/// Whether `needle` stands in `text` from position `start` on.
pub open spec fn occurs_at(needle: Seq<char>, text: Seq<char>, start: int) -> bool {
    &&& 0 <= start
    &&& start + needle.len() <= text.len()
    &&& text.subrange(start, start + needle.len()) == needle
}

/// Whether `needle` stands in `text` from position `start` on.
fn stands_at(needle: &Vec<char>, text: &Vec<char>, start: usize) -> (stands: bool)
    requires
        start + needle.len() <= text.len(),
    ensures
        stands == occurs_at(needle@, text@, start as int),
{
    let mut k: usize = 0;
    while k < needle.len()
        invariant
            k <= needle.len(),
            start + needle.len() <= text.len(),
            text@.subrange(start as int, start + k) == needle@.take(k as int),
        decreases needle.len() - k,
    {
        if text[start + k] != needle[k] {
            assert(text@.subrange(start as int, start + needle.len())[k as int] != needle@[k as int]);
            return false;
        }
        assert(text@.subrange(start as int, start + k + 1) == text@.subrange(
            start as int,
            start + k,
        ).push(text@[start + k]));
        assert(needle@.take(k + 1) == needle@.take(k as int).push(needle@[k as int]));
        k += 1;
    }
    assert(needle@.take(k as int) == needle@);
    true
}

/// Searches `text` for `needle`.
pub fn find_in(needle: &Vec<char>, text: &Vec<char>) -> (found: bool)
    ensures
        found == occurs_in(needle@, text@),
{
    if needle.len() > text.len() {
        assert(forall|start: int| !occurs_at(needle@, text@, start));
        return false;
    }
    let last: usize = text.len() - needle.len();
    let mut start: usize = 0;
    loop
        invariant
            last == text.len() - needle.len(),
            start <= last,
            forall|s: int| 0 <= s < start ==> !occurs_at(needle@, text@, s),
        ensures
            start == last,
            forall|s: int| 0 <= s <= last ==> !occurs_at(needle@, text@, s),
        decreases last - start,
    {
        if stands_at(needle, text, start) {
            return true;
        }
        if start == last {
            break;
        }
        start += 1;
    }
    assert(forall|s: int| !occurs_at(needle@, text@, s));
    false
}

} // verus!
