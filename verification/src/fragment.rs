//! Reading a volume and status fragment such as `(5 Volumes, Complete)`.
//!
//! Only the part of a fragment before its first `)` counts. Parentheses are dropped from
//! it and the rest is split into words at ASCII whitespace. The first word is read as a volume
//! count and the last one as a status. Nothing here fails: what cannot be read is absent.

use vstd::prelude::*;
use crate::model::manga::{status_of_label, Status};
use crate::text::chars_of;

verus! {

/// ASCII whitespace: space, tab, line feed, form feed and carriage return.
pub open spec fn is_space(c: char) -> bool {
    c == ' ' || c == '\t' || c == '\n' || c == '\x0C' || c == '\r'
}

/// A round bracket, opening or closing.
pub open spec fn is_paren(c: char) -> bool {
    c == '(' || c == ')'
}

/// An ASCII decimal digit.
pub open spec fn is_digit(c: char) -> bool {
    '0' <= c <= '9'
}

/// The part of `fragment` before its first `)`; all of it where it holds none.
pub open spec fn before_close(fragment: Seq<char>) -> Seq<char> {
    match fragment.index_of_first(')') {
        Some(at) => fragment.take(at),
        None => fragment,
    }
}

/// `s` without its round brackets.
pub open spec fn without_parens(s: Seq<char>) -> Seq<char> {
    s.filter(|c: char| !is_paren(c))
}

/// The number of characters at the start of `s` before its first whitespace.
pub open spec fn word_len(s: Seq<char>) -> nat
    decreases s.len(),
{
    if s.len() == 0 || is_space(s[0]) {
        0
    } else {
        1 + word_len(s.drop_first())
    }
}

/// The words of `s`: its maximal runs of characters that are no whitespace, in order.
pub open spec fn words(s: Seq<char>) -> Seq<Seq<char>>
    decreases s.len(),
    via words_decreases
{
    if s.len() == 0 {
        Seq::empty()
    } else if is_space(s[0]) {
        words(s.drop_first())
    } else {
        seq![s.take(word_len(s) as int)] + words(s.skip(word_len(s) as int))
    }
}

/// Taking a word off a text that starts with one leaves a shorter text.
#[via_fn]
proof fn words_decreases(s: Seq<char>) {
    lemma_word_len_bound(s);
}

/// A word is no longer than the text it starts.
proof fn lemma_word_len_bound(s: Seq<char>)
    ensures
        word_len(s) <= s.len(),
        s.len() > 0 && !is_space(s[0]) ==> word_len(s) >= 1,
    decreases s.len(),
{
    if s.len() > 0 && !is_space(s[0]) {
        lemma_word_len_bound(s.drop_first());
    }
}

/// A word: at least one character, none of them whitespace.
pub open spec fn is_word(w: Seq<char>) -> bool {
    &&& w.len() > 0
    &&& forall|j: int| 0 <= j < w.len() ==> !is_space(#[trigger] w[j])
}

/// No whitespace stands in the word that starts a text.
proof fn lemma_word_holds_no_space(s: Seq<char>)
    ensures
        forall|j: int| 0 <= j < word_len(s) ==> !is_space(#[trigger] s[j]),
    decreases s.len(),
{
    if s.len() > 0 && !is_space(s[0]) {
        let rest = s.drop_first();
        lemma_word_holds_no_space(rest);
        lemma_word_len_bound(rest);
        assert forall|j: int| 0 <= j < word_len(s) implies !is_space(#[trigger] s[j]) by {
            if j > 0 {
                assert(s[j] == rest[j - 1]);
            }
        }
    }
}

/// Every word of a text holds at least one character and no whitespace.
pub proof fn lemma_words_hold_no_space(s: Seq<char>)
    ensures
        forall|i: int| 0 <= i < words(s).len() ==> is_word(#[trigger] words(s)[i]),
    decreases s.len(),
{
    if s.len() == 0 {
        assert(words(s).len() == 0);
    } else if is_space(s[0]) {
        lemma_words_hold_no_space(s.drop_first());
        assert(words(s) == words(s.drop_first()));
    } else {
        let n = word_len(s) as int;
        lemma_word_len_bound(s);
        lemma_word_holds_no_space(s);
        assert(words(s) == seq![s.take(n)] + words(s.skip(n)));
        lemma_words_hold_no_space(s.skip(n));
        let first = s.take(n);
        let rest = words(s.skip(n));
        assert(is_word(first)) by {
            assert forall|j: int| 0 <= j < first.len() implies !is_space(#[trigger] first[j]) by {
                assert(first[j] == s[j]);
            }
        }
        assert forall|i: int| 0 <= i < words(s).len() implies is_word(#[trigger] words(s)[i]) by {
            if i == 0 {
                assert(words(s)[0] == first);
            } else {
                assert(words(s)[i] == rest[i - 1]);
            }
        }
    }
}

/// The value of a decimal digit; zero for any other character.
pub open spec fn digit_value(c: char) -> nat {
    if is_digit(c) {
        (c as u32 - '0' as u32) as nat
    } else {
        0
    }
}

/// The number that a run of decimal digits writes, most significant digit first.
pub open spec fn digits_value(digits: Seq<char>) -> nat
    decreases digits.len(),
{
    if digits.len() == 0 {
        0
    } else {
        digits_value(digits.drop_last()) * 10 + digit_value(digits.last())
    }
}

/// Whether every character of `s` is a decimal digit.
pub open spec fn all_digits(s: Seq<char>) -> bool {
    forall|i: int| 0 <= i < s.len() ==> is_digit(#[trigger] s[i])
}

/// `word` without the `+` that may stand at its start.
pub open spec fn unsigned_part(word: Seq<char>) -> Seq<char> {
    if word.len() > 0 && word[0] == '+' {
        word.drop_first()
    } else {
        word
    }
}

/// The count that `word` writes: decimal digits, at least one, after an optional `+`. A word
/// of any other form, or one whose number does not fit, writes no count.
pub open spec fn count_of(word: Seq<char>) -> Option<usize> {
    let digits = unsigned_part(word);
    if digits.len() > 0 && all_digits(digits) && digits_value(digits) <= usize::MAX {
        Some(digits_value(digits) as usize)
    } else {
        None
    }
}

/// The volume count and the status that `fragment` reports.
pub open spec fn volume_details(fragment: Seq<char>) -> (Option<usize>, Option<Status>) {
    let tokens = words(without_parens(before_close(fragment)));
    if tokens.len() == 0 {
        (None, None)
    } else {
        (count_of(tokens.first()), status_of_label(tokens.last()))
    }
}

/// What follows the first `)` of a fragment does not count: a fragment reports what its part
/// before that bracket reports.
pub proof fn lemma_text_after_close_is_ignored(head: Seq<char>, tail: Seq<char>)
    requires
        !head.contains(')'),
    ensures
        volume_details(head + seq![')'] + tail) == volume_details(head),
{
    let whole = head + seq![')'] + tail;
    whole.index_of_first_ensures(')');
    head.index_of_first_ensures(')');
    assert(whole[head.len() as int] == ')');
    assert(whole.contains(')'));
    let at = whole.index_of_first(')')->0;
    if at < head.len() {
        assert(whole[at] == head[at]);
        assert(head.contains(')'));
    }
    assert(at == head.len());
    assert(whole.take(at) == head);
}

/// The views of a list of words, in the same order.
pub open spec fn word_views(list: Seq<Vec<char>>) -> Seq<Seq<char>> {
    Seq::new(list.len(), |i: int| list[i]@)
}

/// Dropping brackets from a prefix that is one character longer either appends that character
/// or changes nothing.
proof fn lemma_without_parens_step(s: Seq<char>, i: int)
    requires
        0 <= i < s.len(),
    ensures
        without_parens(s.take(i + 1)) == if is_paren(s[i]) {
            without_parens(s.take(i))
        } else {
            without_parens(s.take(i)).push(s[i])
        },
{
    reveal_with_fuel(Seq::filter, 2);
    assert(s.take(i + 1).drop_last() == s.take(i));
    assert(s.take(i + 1).last() == s[i]);
}

/// The part of the fragment that counts, without its brackets.
fn cleaned(chars: &Vec<char>) -> (out: Vec<char>)
    ensures
        out@ == without_parens(before_close(chars@)),
{
    let mut out: Vec<char> = Vec::new();
    let mut i: usize = 0;
    assert(chars@.take(0).len() == 0);
    while i < chars.len() && chars[i] != ')'
        invariant
            i <= chars.len(),
            forall|j: int| 0 <= j < i ==> chars@[j] != ')',
            out@ == without_parens(chars@.take(i as int)),
        decreases chars.len() - i,
    {
        let c: char = chars[i];
        proof {
            lemma_without_parens_step(chars@, i as int);
        }
        if c != '(' {
            out.push(c);
        }
        i += 1;
    }
    proof {
        chars@.index_of_first_ensures(')');
        if i == chars.len() {
            assert(chars@.take(i as int) == chars@);
            assert(!chars@.contains(')'));
        } else {
            assert(chars@.contains(')'));
        }
    }
    out
}

/// A run of characters that are no whitespace, ending at the text's end or before a
/// whitespace, is a word.
proof fn lemma_word_len(s: Seq<char>, start: int, end: int)
    requires
        0 <= start <= end <= s.len(),
        forall|j: int| start <= j < end ==> !is_space(s[j]),
        end == s.len() || is_space(s[end]),
    ensures
        word_len(s.skip(start)) == end - start,
    decreases end - start,
{
    if start < end {
        assert(s.skip(start).drop_first() == s.skip(start + 1));
        lemma_word_len(s, start + 1, end);
    }
}

/// Splits `s` into its words.
fn split_words(s: &Vec<char>) -> (out: Vec<Vec<char>>)
    ensures
        word_views(out@) == words(s@),
{
    let mut out: Vec<Vec<char>> = Vec::new();
    let mut i: usize = 0;
    assert(s@.skip(0) == s@);
    assert(word_views(out@) + words(s@) == words(s@));
    while i < s.len()
        invariant
            i <= s.len(),
            words(s@) == word_views(out@) + words(s@.skip(i as int)),
        decreases s.len() - i,
    {
        if is_space_char(s[i]) {
            assert(s@.skip(i as int).drop_first() == s@.skip(i + 1));
            i += 1;
        } else {
            let start: usize = i;
            let mut word: Vec<char> = Vec::new();
            while i < s.len() && !is_space_char(s[i])
                invariant
                    start <= i <= s.len(),
                    word@ == s@.subrange(start as int, i as int),
                    forall|j: int| start <= j < i ==> !is_space(s@[j]),
                decreases s.len() - i,
            {
                word.push(s[i]);
                assert(s@.subrange(start as int, i + 1) == s@.subrange(start as int, i as int).push(
                    s@[i as int],
                ));
                i += 1;
            }
            proof {
                lemma_word_len(s@, start as int, i as int);
                let rest = s@.skip(start as int);
                assert(rest.take(i - start) == s@.subrange(start as int, i as int));
                assert(rest.skip(i - start) == s@.skip(i as int));
                assert(word_views(out@.push(word)) == word_views(out@) + seq![word@]);
            }
            out.push(word);
        }
    }
    assert(words(s@.skip(i as int)) == Seq::<Seq<char>>::empty());
    out
}

/// Whether `c` is ASCII whitespace.
fn is_space_char(c: char) -> (space: bool)
    ensures
        space == is_space(c),
{
    c == ' ' || c == '\t' || c == '\n' || c == '\x0C' || c == '\r'
}

/// A prefix of a run of digits writes no larger number than the whole run.
proof fn lemma_digits_value_prefix(digits: Seq<char>, k: int)
    requires
        0 <= k <= digits.len(),
    ensures
        digits_value(digits.take(k)) <= digits_value(digits),
    decreases digits.len() - k,
{
    if k < digits.len() {
        lemma_digits_value_prefix(digits, k + 1);
        assert(digits.take(k + 1).drop_last() == digits.take(k));
    } else {
        assert(digits.take(k) == digits);
    }
}

/// Reads a count from a word.
fn parse_count(word: &Vec<char>) -> (count: Option<usize>)
    ensures
        count == count_of(word@),
{
    let start: usize = if word.len() > 0 && word[0] == '+' {
        1
    } else {
        0
    };
    let ghost digits = word@.skip(start as int);
    assert(digits == unsigned_part(word@));
    if start == word.len() {
        return None;
    }
    let mut value: usize = 0;
    let mut i: usize = start;
    assert(digits.take(0).len() == 0);
    while i < word.len()
        invariant
            start <= i <= word.len(),
            start < word.len(),
            digits == word@.skip(start as int),
            digits == unsigned_part(word@),
            forall|j: int| 0 <= j < i - start ==> is_digit(#[trigger] digits[j]),
            value == digits_value(digits.take(i - start)),
        decreases word.len() - i,
    {
        let c: char = word[i];
        assert(c == digits[i - start]);
        if !(c >= '0' && c <= '9') {
            return None;
        }
        let digit: usize = (c as u32 - '0' as u32) as usize;
        proof {
            assert(digits.take(i - start + 1).drop_last() == digits.take(i - start));
            assert(digits.take(i - start + 1).last() == c);
            lemma_digits_value_prefix(digits, i - start + 1);
        }
        let scaled: usize = match value.checked_mul(10) {
            Some(v) => v,
            None => {
                return None;
            },
        };
        value = match scaled.checked_add(digit) {
            Some(v) => v,
            None => {
                return None;
            },
        };
        i += 1;
    }
    assert(digits.take(i - start) == digits);
    Some(value)
}

/// Reads the volume count and the status from a fragment such as `(5 Volumes, Complete)`.
///
/// The count is the number that the first word writes, the status the one that the last word
/// names; each is absent where the word does not read as one, and both where the fragment
/// holds no word.
pub fn get_volume_details(fragment: &str) -> (details: (Option<usize>, Option<Status>))
    ensures
        details == volume_details(fragment@),
{
    let chars = chars_of(fragment);
    let kept = cleaned(&chars);
    let tokens = split_words(&kept);
    let n: usize = tokens.len();
    if n == 0 {
        return (None, None);
    }
    assert(word_views(tokens@)[0] == tokens@[0]@);
    assert(word_views(tokens@)[n - 1] == tokens@[n - 1]@);
    let status = Status::from_chars(&tokens[n - 1]);
    let vols = parse_count(&tokens[0]);
    (vols, status)
}

} // verus!
