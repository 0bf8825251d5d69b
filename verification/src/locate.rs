//! Finding elements of a page by selector and by the text they hold.
//!
//! Page order, here and in the rest of the library, is the order in which the selector engine
//! yields the elements of a page.

use vstd::prelude::*;
use scraper::{ElementRef, Html};
use crate::error::ExtractError;
use crate::page::{
    element_first_text, first_text, parse_selector, select_all, selected, selector_of,
};
use crate::text::{chars_of, find_in, occurs_in};

verus! {

/// The elements that `pattern` selects on `page`, in page order; an error where `pattern` is no
/// selector.
pub open spec fn matches_of(page: &Html, pattern: Seq<char>) -> Result<
    Seq<ElementRef<'_>>,
    ExtractError,
> {
    match selector_of(pattern) {
        Some(selector) => Ok(selected(page, selector)),
        None => Err(ExtractError::InvalidSelector),
    }
}

/// Selects the elements of `page` that match `pattern`, in page order.
pub fn select<'a>(page: &'a Html, pattern: &str) -> (found: Result<
    Vec<ElementRef<'a>>,
    ExtractError,
>)
    ensures
        match found {
            Ok(elements) => matches_of(page, pattern@) == Ok::<_, ExtractError>(elements@),
            Err(e) => matches_of(page, pattern@) == Err::<Seq<ElementRef<'_>>, _>(e),
        },
{
    match parse_selector(pattern) {
        Ok(selector) => Ok(select_all(page, &selector)),
        Err(_) => Err(ExtractError::InvalidSelector),
    }
}

/// Whether `element` passes the text filter: with no filter every element does, with a filter
/// those whose first text node holds the filter as a substring.
pub open spec fn passes(element: ElementRef<'_>, text_match: Option<Seq<char>>) -> bool {
    match text_match {
        None => true,
        Some(needle) => match first_text(element) {
            Some(text) => occurs_in(needle, text),
            None => false,
        },
    }
}

/// The elements of `candidates` that pass the text filter, in the same order.
pub open spec fn kept(candidates: Seq<ElementRef<'_>>, text_match: Option<Seq<char>>) -> Seq<
    ElementRef<'_>,
> {
    candidates.filter(|e: ElementRef<'_>| passes(e, text_match))
}

/// The first element among those that `pattern` selects on `page` that passes the text filter.
/// There is none where `pattern` is no selector.
pub open spec fn block_with_text(
    page: &Html,
    pattern: Seq<char>,
    text_match: Option<Seq<char>>,
) -> Option<ElementRef<'_>> {
    match matches_of(page, pattern) {
        Ok(candidates) => {
            let kept = kept(candidates, text_match);
            if kept.len() > 0 {
                Some(kept[0])
            } else {
                None
            }
        },
        Err(_) => None,
    }
}

/// The view of an optional text.
pub open spec fn text_view(text: Option<String>) -> Option<Seq<char>> {
    match text {
        Some(t) => Some(t@),
        None => None,
    }
}

/// Filtering a prefix that is one element longer either appends that element or changes
/// nothing.
proof fn lemma_kept_step(s: Seq<ElementRef<'_>>, text_match: Option<Seq<char>>, i: int)
    requires
        0 <= i < s.len(),
    ensures
        kept(s.take(i + 1), text_match) == if passes(s[i], text_match) {
            kept(s.take(i), text_match).push(s[i])
        } else {
            kept(s.take(i), text_match)
        },
{
    reveal_with_fuel(Seq::filter, 2);
    assert(s.take(i + 1).drop_last() == s.take(i));
    assert(s.take(i + 1).last() == s[i]);
}

/// What is kept from a prefix is empty exactly where nothing in the prefix passes, and
/// otherwise starts with the first element of the prefix that passes.
proof fn lemma_kept_prefix(s: Seq<ElementRef<'_>>, text_match: Option<Seq<char>>, n: int)
    requires
        0 <= n <= s.len(),
    ensures
        kept(s.take(n), text_match).len() == 0 <==> forall|j: int|
            0 <= j < n ==> !passes(#[trigger] s[j], text_match),
        kept(s.take(n), text_match).len() > 0 ==> exists|i: int|
            {
                &&& 0 <= i < n
                &&& passes(#[trigger] s[i], text_match)
                &&& kept(s.take(n), text_match)[0] == s[i]
                &&& forall|j: int| 0 <= j < i ==> !passes(#[trigger] s[j], text_match)
            },
    decreases n,
{
    if n == 0 {
        assert(s.take(0).len() == 0);
    } else {
        lemma_kept_prefix(s, text_match, n - 1);
        lemma_kept_step(s, text_match, n - 1);
        let before = kept(s.take(n - 1), text_match);
        if before.len() > 0 {
            let i = choose|i: int|
                {
                    &&& 0 <= i < n - 1
                    &&& passes(#[trigger] s[i], text_match)
                    &&& before[0] == s[i]
                    &&& forall|j: int| 0 <= j < i ==> !passes(#[trigger] s[j], text_match)
                };
            assert(kept(s.take(n), text_match)[0] == s[i]);
        } else if passes(s[n - 1], text_match) {
            assert(kept(s.take(n), text_match)[0] == s[n - 1]);
        }
    }
}

/// The first match wins: the block that is found passes the filter and no candidate before it
/// does; no block is found exactly where no candidate passes.
pub proof fn lemma_block_is_first_match(
    page: &Html,
    pattern: Seq<char>,
    text_match: Option<Seq<char>>,
)
    ensures
        match matches_of(page, pattern) {
            Ok(candidates) => match block_with_text(page, pattern, text_match) {
                Some(block) => exists|i: int|
                    {
                        &&& 0 <= i < candidates.len()
                        &&& #[trigger] candidates[i] == block
                        &&& passes(block, text_match)
                        &&& forall|j: int|
                            0 <= j < i ==> !passes(#[trigger] candidates[j], text_match)
                    },
                None => forall|j: int|
                    0 <= j < candidates.len() ==> !passes(#[trigger] candidates[j], text_match),
            },
            Err(_) => block_with_text(page, pattern, text_match) is None,
        },
{
    if let Ok(candidates) = matches_of(page, pattern) {
        lemma_kept_prefix(candidates, text_match, candidates.len() as int);
        assert(candidates.take(candidates.len() as int) == candidates);
        if let Some(block) = block_with_text(page, pattern, text_match) {
            let i = choose|i: int|
                {
                    &&& 0 <= i < candidates.len()
                    &&& passes(#[trigger] candidates[i], text_match)
                    &&& kept(candidates, text_match)[0] == candidates[i]
                    &&& forall|j: int|
                        0 <= j < i ==> !passes(#[trigger] candidates[j], text_match)
                };
            assert(candidates[i] == block);
        }
    }
}

/// Whether `element` passes a text filter given as characters.
fn passes_filter(element: ElementRef<'_>, needle: &Option<Vec<char>>) -> (kept: bool)
    ensures
        kept == passes(
            element,
            match needle {
                Some(n) => Some(n@),
                None => None,
            },
        ),
{
    match needle {
        None => true,
        Some(n) => match element_first_text(element) {
            Some(text) => {
                let hay = chars_of(text);
                find_in(n, &hay)
            },
            None => false,
        },
    }
}

/// Finds the first element that `pattern` selects and that passes the text filter.
///
/// All elements that match `pattern` are candidates, in page order. With a filter, only those
/// whose first text node holds the filter as a substring (case-sensitive) stay. The first that
/// stays is returned; `None` where none stays or where `pattern` is no selector.
pub fn get_value_of_block_with_text<'a>(
    page: &'a Html,
    pattern: String,
    text_match: Option<String>,
) -> (block: Option<ElementRef<'a>>)
    ensures
        block == block_with_text(page, pattern@, text_view(text_match)),
{
    let candidates = match select(page, pattern.as_str()) {
        Ok(elements) => elements,
        Err(_) => {
            return None;
        },
    };
    let needle: Option<Vec<char>> = match &text_match {
        Some(t) => Some(chars_of(t.as_str())),
        None => None,
    };
    let ghost wanted = text_view(text_match);
    let mut i: usize = 0;
    while i < candidates.len()
        invariant
            i <= candidates.len(),
            matches_of(page, pattern@) == Ok::<_, ExtractError>(candidates@),
            wanted == text_view(text_match),
            wanted == match needle {
                Some(n) => Some(n@),
                None => None,
            },
            forall|j: int| 0 <= j < i ==> !passes(#[trigger] candidates@[j], wanted),
        decreases candidates.len() - i,
    {
        let candidate = candidates[i];
        if passes_filter(candidate, &needle) {
            proof {
                lemma_block_is_first_match(page, pattern@, wanted);
            }
            return Some(candidate);
        }
        i += 1;
    }
    proof {
        lemma_block_is_first_match(page, pattern@, wanted);
    }
    None
}

} // verus!
