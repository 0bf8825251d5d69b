//! The boundary to the HTML parser and selector engine.
//!
//! A parsed page and the elements in it are values of the `scraper` crate. Verus sees nothing
//! inside them, so this module gives a name to what each query on them returns and wraps each
//! query in a function whose contract equates its result with that name. Nothing here is
//! proved: the contracts are read off the source of `scraper`. Everything that decides what to
//! do with a result lives in the other modules and is proved against these names.

use vstd::prelude::*;
use selectors::Element;

verus! {

/// A parsed HTML page.
#[verifier::external_type_specification]
#[verifier::external_body]
pub struct ExHtml(scraper::Html);

/// A parsed group of CSS selectors.
#[verifier::external_type_specification]
#[verifier::external_body]
pub struct ExSelector(scraper::Selector);

/// A reference to one element node of a page.
#[verifier::external_type_specification]
#[verifier::external_body]
pub struct ExElementRef<'a>(scraper::ElementRef<'a>);

/// The reason why a text is no group of CSS selectors.
#[verifier::external_type_specification]
#[verifier::external_body]
pub struct ExSelectorErrorKind(scraper::error::SelectorErrorKind);

/// The selector group that `Selector::parse` reads from `pattern`, if it reads one.
pub uninterp spec fn selector_of(pattern: Seq<char>) -> Option<scraper::Selector>;

/// The elements of `page` that `Html::select` yields for `selector`, in the order in which it
/// yields them.
pub uninterp spec fn selected(page: &scraper::Html, selector: scraper::Selector) -> Seq<
    scraper::ElementRef<'_>,
>;

/// The first text node among the descendants of `element`, as `ElementRef::text` walks them.
pub uninterp spec fn first_text(element: scraper::ElementRef<'_>) -> Option<Seq<char>>;

/// The parent of `element`, where that parent is an element.
pub uninterp spec fn parent_element(element: scraper::ElementRef<'_>) -> Option<
    scraper::ElementRef<'_>,
>;

/// The nearest sibling after `element` that is an element.
pub uninterp spec fn next_sibling_element(element: scraper::ElementRef<'_>) -> Option<
    scraper::ElementRef<'_>,
>;

/// The nearest sibling before `element` that is an element.
pub uninterp spec fn prev_sibling_element(element: scraper::ElementRef<'_>) -> Option<
    scraper::ElementRef<'_>,
>;

/// The value of the attribute `name` of `element`, if it has that attribute.
pub uninterp spec fn attribute(element: scraper::ElementRef<'_>, name: Seq<char>) -> Option<
    Seq<char>,
>;

/// The text of the node that directly follows `element` among its siblings, if there is such a
/// node and it is a text node.
pub uninterp spec fn following_text(element: scraper::ElementRef<'_>) -> Option<Seq<char>>;

/// The view of an optional text.
pub open spec fn str_view(text: Option<&str>) -> Option<Seq<char>> {
    match text {
        Some(t) => Some(t@),
        None => None,
    }
}

/// Calls `scraper::Selector::parse`. The contract only names the outcome: the same pattern
/// always parses to the same selector group, or always fails.
#[verifier::external_body]
pub(crate) fn parse_selector(pattern: &str) -> (parsed: Result<
    scraper::Selector,
    scraper::error::SelectorErrorKind,
>)
    ensures
        parsed.ok() == selector_of(pattern@),
{
    scraper::Selector::parse(pattern)
}

/// Calls `scraper::Html::select` and collects what the iterator yields, in its order. The
/// contract only names that sequence.
#[verifier::external_body]
pub(crate) fn select_all<'a>(page: &'a scraper::Html, selector: &scraper::Selector) -> (found: Vec<
    scraper::ElementRef<'a>,
>)
    ensures
        found@ == selected(page, *selector),
{
    page.select(selector).collect()
}

/// Calls `scraper::ElementRef::text` and takes the first item of the iterator. The contract
/// only names that item.
#[verifier::external_body]
pub(crate) fn element_first_text<'a>(element: scraper::ElementRef<'a>) -> (text: Option<&'a str>)
    ensures
        str_view(text) == first_text(element),
{
    element.text().next()
}

/// Calls `parent_element` of the `selectors::Element` impl for `ElementRef`. The contract only
/// names the result.
#[verifier::external_body]
pub(crate) fn element_parent<'a>(element: scraper::ElementRef<'a>) -> (parent: Option<
    scraper::ElementRef<'a>,
>)
    ensures
        parent == parent_element(element),
{
    element.parent_element()
}

/// Calls `next_sibling_element` of the `selectors::Element` impl for `ElementRef`. The contract
/// only names the result.
#[verifier::external_body]
pub(crate) fn element_next_sibling<'a>(element: scraper::ElementRef<'a>) -> (sibling: Option<
    scraper::ElementRef<'a>,
>)
    ensures
        sibling == next_sibling_element(element),
{
    element.next_sibling_element()
}

/// Calls `prev_sibling_element` of the `selectors::Element` impl for `ElementRef`. The contract
/// only names the result.
#[verifier::external_body]
pub(crate) fn element_prev_sibling<'a>(element: scraper::ElementRef<'a>) -> (sibling: Option<
    scraper::ElementRef<'a>,
>)
    ensures
        sibling == prev_sibling_element(element),
{
    element.prev_sibling_element()
}

/// Calls `scraper::ElementRef::attr`. The contract only names the result.
#[verifier::external_body]
pub(crate) fn element_attribute<'a>(element: scraper::ElementRef<'a>, name: &str) -> (value: Option<
    &'a str,
>)
    ensures
        str_view(value) == attribute(element, name@),
{
    element.attr(name)
}

/// Calls `next_sibling` of the node behind `element` and `scraper::Node::as_text` on what it
/// returns. The contract only names the result.
#[verifier::external_body]
pub(crate) fn element_following_text<'a>(element: scraper::ElementRef<'a>) -> (text: Option<
    &'a str,
>)
    ensures
        str_view(text) == following_text(element),
{
    let node = element.next_sibling()?;
    let text = node.value().as_text()?;
    Some(&**text)
}

} // verus!
