//! The entries of a search-results page.

use vstd::prelude::*;
use vstd::string::*;
use scraper::{ElementRef, Html};
use crate::error::ExtractError;
use crate::gather::{
    gathered, lemma_gathered_failure_stays, lemma_gathered_keeps_order, lemma_gathered_step,
};
use crate::locate::{matches_of, select};
use crate::model::manga::{search_records, SearchRecord, SearchResult};
use crate::page::{attribute, element_attribute, element_first_text, first_text, str_view};

verus! {

/// Selects the link of every series on a search-results page.
pub const SEARCH_PATTERN: &'static str =
    "div#main_content > .p-2 > div.row > div.p-3 > div > div > div.d-flex > div.text > a";

/// The attribute that holds a link's target.
pub const LINK_ATTRIBUTE: &'static str = "href";

/// The search result that a link stands for, from its target and its name. The target is
/// required, and so is a name that holds a character; the target is looked at first.
pub open spec fn search_result_from(href: Option<Seq<char>>, name: Option<Seq<char>>) -> Result<
    SearchRecord,
    ExtractError,
> {
    match href {
        None => Err(ExtractError::MissingLink),
        Some(h) => match name {
            None => Err(ExtractError::MissingName),
            Some(n) => if n.len() == 0 {
                Err(ExtractError::MissingName)
            } else {
                Ok(SearchRecord { name: n, href: h })
            },
        },
    }
}

/// The search result that a series link stands for: its link attribute is the target and its
/// own first text the name.
pub open spec fn search_result_of(link: ElementRef<'_>) -> Result<SearchRecord, ExtractError> {
    search_result_from(attribute(link, LINK_ATTRIBUTE@), first_text(link))
}

/// The outcome of reading each of `links`, in the same order.
pub open spec fn search_outcomes(links: Seq<ElementRef<'_>>) -> Seq<
    Result<SearchRecord, ExtractError>,
> {
    Seq::new(links.len(), |i: int| search_result_of(links[i]))
}

/// The search results on `page`, in page order: the result of every series link, or the error
/// of the first link that has none.
pub open spec fn search_results_of(page: &Html) -> Result<Seq<SearchRecord>, ExtractError> {
    match matches_of(page, SEARCH_PATTERN@) {
        Ok(links) => gathered(search_outcomes(links)),
        Err(e) => Err(e),
    }
}

/// Reads a search result from the target and the name of a link.
pub fn read_search_result(href: Option<&str>, name: Option<&str>) -> (result: Result<
    SearchResult,
    ExtractError,
>)
    ensures
        match result {
            Ok(r) => search_result_from(str_view(href), str_view(name)) == Ok::<_, ExtractError>(
                r@,
            ),
            Err(e) => search_result_from(str_view(href), str_view(name)) == Err::<
                SearchRecord,
                _,
            >(e),
        },
{
    let href = match href {
        Some(value) => value,
        None => {
            return Err(ExtractError::MissingLink);
        },
    };
    let name = match name {
        Some(text) => text,
        None => {
            return Err(ExtractError::MissingName);
        },
    };
    if name.unicode_len() == 0 {
        return Err(ExtractError::MissingName);
    }
    Ok(SearchResult::new(String::from_str(name), String::from_str(href)))
}

/// Reads the search result that a series link stands for.
pub fn search_entry(link: ElementRef<'_>) -> (result: Result<SearchResult, ExtractError>)
    ensures
        match result {
            Ok(r) => search_result_of(link) == Ok::<_, ExtractError>(r@),
            Err(e) => search_result_of(link) == Err::<SearchRecord, _>(e),
        },
{
    read_search_result(element_attribute(link, LINK_ATTRIBUTE), element_first_text(link))
}

/// Reads the search results on `page`, in page order.
///
/// Every series link must have a target and a name: the first one that lacks either fails the
/// page, so that every returned entry is complete.
pub fn parse_search_results(page: &Html) -> (results: Result<Vec<SearchResult>, ExtractError>)
    ensures
        match results {
            Ok(list) => search_results_of(page) == Ok::<_, ExtractError>(search_records(list@)),
            Err(e) => search_results_of(page) == Err::<Seq<SearchRecord>, _>(e),
        },
        results matches Ok(list) ==> forall|i: int|
            0 <= i < list.len() ==> (#[trigger] list@[i])@.well_formed(),
{
    let links = match select(page, SEARCH_PATTERN) {
        Ok(elements) => elements,
        Err(e) => {
            return Err(e);
        },
    };
    let ghost outcomes = search_outcomes(links@);
    let mut list: Vec<SearchResult> = Vec::new();
    let mut i: usize = 0;
    assert(outcomes.take(0) == Seq::<Result<SearchRecord, ExtractError>>::empty());
    assert(search_records(list@) == Seq::<SearchRecord>::empty());
    while i < links.len()
        invariant
            i <= links.len(),
            matches_of(page, SEARCH_PATTERN@) == Ok::<_, ExtractError>(links@),
            outcomes == search_outcomes(links@),
            gathered(outcomes.take(i as int)) == Ok::<_, ExtractError>(search_records(list@)),
        decreases links.len() - i,
    {
        proof {
            lemma_gathered_step(outcomes, i as int);
        }
        match search_entry(links[i]) {
            Ok(result) => {
                assert(search_records(list@.push(result)) == search_records(list@).push(
                    result@,
                ));
                list.push(result);
            },
            Err(e) => {
                proof {
                    lemma_gathered_failure_stays(outcomes, i as int + 1, outcomes.len() as int);
                    assert(outcomes.take(outcomes.len() as int) == outcomes);
                }
                return Err(e);
            },
        }
        i += 1;
    }
    proof {
        assert(outcomes.take(i as int) == outcomes);
        lemma_search_results_are_complete(page);
        let records = search_results_of(page)->Ok_0;
        assert(records == search_records(list@));
        assert forall|k: int| 0 <= k < list.len() implies (#[trigger] list@[k])@.well_formed() by {
            assert(records[k].well_formed());
        }
    }
    Ok(list)
}

/// The search results come out in page order, one for each link: where a page has results, the
/// list holds the result of link `i` at place `i`. Where it has none, the pattern is no
/// selector or the error is that of the first link without a result.
pub proof fn lemma_search_results_keep_page_order(page: &Html)
    ensures
        match search_results_of(page) {
            Ok(records) => {
                &&& matches_of(page, SEARCH_PATTERN@) matches Ok(links)
                &&& records.len() == links.len()
                &&& forall|i: int|
                    0 <= i < links.len() ==> search_result_of(#[trigger] links[i]) == Ok::<
                        _,
                        ExtractError,
                    >(records[i])
            },
            Err(e) => match matches_of(page, SEARCH_PATTERN@) {
                Ok(links) => exists|k: int|
                    {
                        &&& 0 <= k < links.len()
                        &&& search_result_of(#[trigger] links[k]) == Err::<SearchRecord, _>(e)
                        &&& forall|i: int|
                            0 <= i < k ==> search_result_of(#[trigger] links[i]) is Ok
                    },
                Err(cause) => cause == e,
            },
        },
{
    if let Ok(links) = matches_of(page, SEARCH_PATTERN@) {
        let outcomes = search_outcomes(links);
        lemma_gathered_keeps_order(outcomes);
        match search_results_of(page) {
            Ok(records) => {
                assert forall|i: int| 0 <= i < links.len() implies search_result_of(
                    #[trigger] links[i],
                ) == Ok::<_, ExtractError>(records[i]) by {
                    assert(outcomes[i] == Ok::<_, ExtractError>(records[i]));
                }
            },
            Err(e) => {
                let k = choose|k: int|
                    {
                        &&& 0 <= k < outcomes.len()
                        &&& #[trigger] outcomes[k] == Err::<SearchRecord, ExtractError>(e)
                        &&& forall|i: int| 0 <= i < k ==> (#[trigger] outcomes[i]) is Ok
                    };
                assert(search_result_of(links[k]) == Err::<SearchRecord, _>(e));
                assert forall|i: int| 0 <= i < k implies search_result_of(
                    #[trigger] links[i],
                ) is Ok by {
                    assert(outcomes[i] is Ok);
                }
            },
        }
    }
}

/// Every search result that a page yields has a name.
pub proof fn lemma_search_results_are_complete(page: &Html)
    ensures
        search_results_of(page) matches Ok(records) ==> forall|i: int|
            0 <= i < records.len() ==> (#[trigger] records[i]).well_formed(),
{
    if let Ok(records) = search_results_of(page) {
        let links = matches_of(page, SEARCH_PATTERN@)->Ok_0;
        lemma_search_results_keep_page_order(page);
        assert forall|i: int| 0 <= i < records.len() implies (#[trigger] records[i]).well_formed() by {
            assert(search_result_of(links[i]) == Ok::<_, ExtractError>(records[i]));
        }
    }
}

} // verus!
