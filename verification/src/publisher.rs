//! The publishers of a work.
//!
//! Original publishers share the one status that a page reports for the original publication;
//! each English publisher has a fragment of its own after its entry. Volumes and status are
//! optional: what a fragment does not tell is absent, and so is everything where the fragment
//! itself is missing. Only a publisher's type and name are required.

use vstd::prelude::*;
use vstd::string::*;
use scraper::{ElementRef, Html};
use crate::error::ExtractError;
use crate::field::{details_from, get_original_publisher_info, original_details_of, read_details};
use crate::gather::{
    gathered, lemma_gathered_failure_stays, lemma_gathered_keeps_order, lemma_gathered_step,
};
use crate::locate::{matches_of, select};
use crate::model::manga::{
    publisher_records, publisher_type_of_label, PublisherInfo, PublisherRecord, PublisherType,
    Status,
};
use crate::page::{
    element_first_text, element_following_text, element_parent, element_prev_sibling, first_text,
    following_text, parent_element, prev_sibling_element, str_view,
};

verus! {

/// Selects every publisher entry.
pub const PUBLISHER_PATTERN: &'static str = "div.sContent > a[title=\"Publisher Info\"]";

/// The category label of a publisher entry: the first text of the element before the entry's
/// parent.
pub open spec fn category_label(entry: ElementRef<'_>) -> Option<Seq<char>> {
    match parent_element(entry) {
        Some(parent) => match prev_sibling_element(parent) {
            Some(label) => first_text(label),
            None => None,
        },
        None => None,
    }
}

/// The volumes and status of a publisher of the given type. An original publisher has those in
/// `original`, which a page reports once. An English publisher has those of the fragment after
/// its own entry, and neither where nothing follows the entry.
pub open spec fn details_for(
    publisher_type: PublisherType,
    fragment: Option<Seq<char>>,
    original: (Option<usize>, Option<Status>),
) -> (Option<usize>, Option<Status>) {
    match publisher_type {
        PublisherType::Original => original,
        PublisherType::English => details_from(fragment),
    }
}

/// The record of a publisher, from the texts of its entry: its category label, its name and
/// the fragment after it. The label must name a publisher type and the name must hold a
/// character; the label is looked at first. The fragment is never in the way of a record.
pub open spec fn publisher_from(
    label: Option<Seq<char>>,
    name: Option<Seq<char>>,
    fragment: Option<Seq<char>>,
    original: (Option<usize>, Option<Status>),
) -> Result<PublisherRecord, ExtractError> {
    match label {
        None => Err(ExtractError::MissingPublisherLabel),
        Some(l) => match publisher_type_of_label(l) {
            None => Err(ExtractError::UnrecognizedPublisherLabel),
            Some(publisher_type) => match name {
                None => Err(ExtractError::MissingPublisherName),
                Some(n) => if n.len() == 0 {
                    Err(ExtractError::MissingPublisherName)
                } else {
                    let (vols, status) = details_for(publisher_type, fragment, original);
                    Ok(PublisherRecord { publisher_type, name: n, vols, status })
                },
            },
        },
    }
}

/// The record of one publisher entry.
pub open spec fn publisher_of(
    entry: ElementRef<'_>,
    original: (Option<usize>, Option<Status>),
) -> Result<PublisherRecord, ExtractError> {
    publisher_from(category_label(entry), first_text(entry), following_text(entry), original)
}

/// The outcome of reading each of `entries`, in the same order.
pub open spec fn publisher_outcomes(
    entries: Seq<ElementRef<'_>>,
    original: (Option<usize>, Option<Status>),
) -> Seq<Result<PublisherRecord, ExtractError>> {
    Seq::new(entries.len(), |i: int| publisher_of(entries[i], original))
}

/// The publishers of the work on `page`, in page order: the record of every publisher entry,
/// or the error of the first entry that has none.
pub open spec fn publishers_of(page: &Html) -> Result<Seq<PublisherRecord>, ExtractError> {
    match matches_of(page, PUBLISHER_PATTERN@) {
        Ok(entries) => gathered(publisher_outcomes(entries, original_details_of(page))),
        Err(e) => Err(e),
    }
}

/// Only the category label and the name decide whether a publisher has a record; volumes and
/// status never do. A publisher whose label names a type and whose name holds a character has
/// a record with that type and name, whatever follows its entry. An English publisher with no
/// fragment after its entry has neither volumes nor status.
pub proof fn lemma_only_type_and_name_are_required(
    label: Option<Seq<char>>,
    name: Option<Seq<char>>,
    fragment: Option<Seq<char>>,
    original: (Option<usize>, Option<Status>),
)
    ensures
        publisher_from(label, name, fragment, original) is Ok <==> {
            &&& label matches Some(l)
            &&& publisher_type_of_label(l) is Some
            &&& name matches Some(n)
            &&& n.len() > 0
        },
        publisher_from(label, name, fragment, original) matches Ok(record) ==> {
            &&& Some(record.publisher_type) == publisher_type_of_label(label->0)
            &&& record.name == name->0
            &&& (record.vols, record.status) == details_for(
                record.publisher_type,
                fragment,
                original,
            )
        },
        details_for(PublisherType::English, None, original) == (
            None::<usize>,
            None::<Status>,
        ),
{
}

/// Reads the category label of a publisher entry.
fn entry_label<'a>(entry: ElementRef<'a>) -> (label: Option<&'a str>)
    ensures
        str_view(label) == category_label(entry),
{
    match element_parent(entry) {
        Some(parent) => match element_prev_sibling(parent) {
            Some(label) => element_first_text(label),
            None => None,
        },
        None => None,
    }
}

/// Reads the volumes and status of a publisher of the given type: the shared ones for an
/// original publisher, those of its own fragment for an English one. This never fails.
pub fn read_details_for(
    publisher_type: PublisherType,
    fragment: Option<&str>,
    original: (Option<usize>, Option<Status>),
) -> (details: (Option<usize>, Option<Status>))
    ensures
        details == details_for(publisher_type, str_view(fragment), original),
{
    match publisher_type {
        PublisherType::Original => original,
        PublisherType::English => read_details(fragment),
    }
}

/// Reads the record of a publisher from the texts of its entry: its category label, its name
/// and the fragment after it.
///
/// The label must be in the label table and the name must hold a character. Volumes and
/// status are optional: what the fragment does not tell is absent, and a missing fragment tells
/// nothing.
pub fn read_publisher(
    label: Option<&str>,
    name: Option<&str>,
    fragment: Option<&str>,
    original: (Option<usize>, Option<Status>),
) -> (info: Result<PublisherInfo, ExtractError>)
    ensures
        match info {
            Ok(p) => publisher_from(str_view(label), str_view(name), str_view(fragment), original)
                == Ok::<_, ExtractError>(p@),
            Err(e) => publisher_from(str_view(label), str_view(name), str_view(fragment), original)
                == Err::<PublisherRecord, _>(e),
        },
{
    let label = match label {
        Some(text) => text,
        None => {
            return Err(ExtractError::MissingPublisherLabel);
        },
    };
    let publisher_type = match PublisherType::from_label(label) {
        Some(t) => t,
        None => {
            return Err(ExtractError::UnrecognizedPublisherLabel);
        },
    };
    let name = match name {
        Some(text) => text,
        None => {
            return Err(ExtractError::MissingPublisherName);
        },
    };
    if name.unicode_len() == 0 {
        return Err(ExtractError::MissingPublisherName);
    }
    let (vols, status) = read_details_for(publisher_type, fragment, original);
    Ok(PublisherInfo::new(publisher_type, String::from_str(name), vols, status))
}

/// Reads the record of one publisher entry.
pub fn publisher_entry(entry: ElementRef<'_>, original: (Option<usize>, Option<Status>)) -> (info:
    Result<PublisherInfo, ExtractError>)
    ensures
        match info {
            Ok(p) => publisher_of(entry, original) == Ok::<_, ExtractError>(p@),
            Err(e) => publisher_of(entry, original) == Err::<PublisherRecord, _>(e),
        },
{
    read_publisher(
        entry_label(entry),
        element_first_text(entry),
        element_following_text(entry),
        original,
    )
}

/// Reads the publishers of the work on `page`, in page order.
///
/// Every entry must have a category label from the label table and a name: the first entry
/// that lacks one of these fails the page. Volumes and status are optional and never fail it.
pub fn get_publisher_info(page: &Html) -> (publishers: Result<Vec<PublisherInfo>, ExtractError>)
    ensures
        match publishers {
            Ok(list) => publishers_of(page) == Ok::<_, ExtractError>(publisher_records(list@)),
            Err(e) => publishers_of(page) == Err::<Seq<PublisherRecord>, _>(e),
        },
{
    let original = get_original_publisher_info(page);
    let entries = match select(page, PUBLISHER_PATTERN) {
        Ok(elements) => elements,
        Err(e) => {
            return Err(e);
        },
    };
    let ghost outcomes = publisher_outcomes(entries@, original);
    let mut list: Vec<PublisherInfo> = Vec::new();
    let mut i: usize = 0;
    assert(outcomes.take(0) == Seq::<Result<PublisherRecord, ExtractError>>::empty());
    assert(publisher_records(list@) == Seq::<PublisherRecord>::empty());
    while i < entries.len()
        invariant
            i <= entries.len(),
            original == original_details_of(page),
            matches_of(page, PUBLISHER_PATTERN@) == Ok::<_, ExtractError>(entries@),
            outcomes == publisher_outcomes(entries@, original),
            gathered(outcomes.take(i as int)) == Ok::<_, ExtractError>(publisher_records(list@)),
        decreases entries.len() - i,
    {
        proof {
            lemma_gathered_step(outcomes, i as int);
        }
        match publisher_entry(entries[i], original) {
            Ok(info) => {
                assert(publisher_records(list@.push(info)) == publisher_records(list@).push(
                    info@,
                ));
                list.push(info);
            },
            Err(e) => {
                proof {
                    lemma_gathered_failure_stays(outcomes, i as int + 1, outcomes.len() as int);
                    assert(outcomes.take(outcomes.len() as int) == outcomes);
                }
                return Err(e);
            },
        }
        i += 1;
    }
    assert(outcomes.take(i as int) == outcomes);
    Ok(list)
}

/// The publishers come out in page order, one for each entry: where a page has publishers,
/// the list holds the record of entry `i` at place `i`. Where it has none, the pattern is no
/// selector or the error is that of the first entry without a record.
pub proof fn lemma_publishers_keep_page_order(page: &Html)
    ensures
        match publishers_of(page) {
            Ok(records) => {
                &&& matches_of(page, PUBLISHER_PATTERN@) matches Ok(entries)
                &&& records.len() == entries.len()
                &&& forall|i: int|
                    0 <= i < entries.len() ==> publisher_of(
                        #[trigger] entries[i],
                        original_details_of(page),
                    ) == Ok::<_, ExtractError>(records[i])
            },
            Err(e) => match matches_of(page, PUBLISHER_PATTERN@) {
                Ok(entries) => exists|k: int|
                    {
                        &&& 0 <= k < entries.len()
                        &&& publisher_of(#[trigger] entries[k], original_details_of(page)) == Err::<
                            PublisherRecord,
                            _,
                        >(e)
                        &&& forall|i: int|
                            0 <= i < k ==> publisher_of(
                                #[trigger] entries[i],
                                original_details_of(page),
                            ) is Ok
                    },
                Err(cause) => cause == e,
            },
        },
{
    if let Ok(entries) = matches_of(page, PUBLISHER_PATTERN@) {
        let original = original_details_of(page);
        let outcomes = publisher_outcomes(entries, original);
        lemma_gathered_keeps_order(outcomes);
        match publishers_of(page) {
            Ok(records) => {
                assert forall|i: int| 0 <= i < entries.len() implies publisher_of(
                    #[trigger] entries[i],
                    original,
                ) == Ok::<_, ExtractError>(records[i]) by {
                    assert(outcomes[i] == Ok::<_, ExtractError>(records[i]));
                }
            },
            Err(e) => {
                let k = choose|k: int|
                    {
                        &&& 0 <= k < outcomes.len()
                        &&& #[trigger] outcomes[k] == Err::<PublisherRecord, ExtractError>(e)
                        &&& forall|i: int| 0 <= i < k ==> (#[trigger] outcomes[i]) is Ok
                    };
                assert(publisher_of(entries[k], original) == Err::<PublisherRecord, _>(e));
                assert forall|i: int| 0 <= i < k implies publisher_of(
                    #[trigger] entries[i],
                    original,
                ) is Ok by {
                    assert(outcomes[i] is Ok);
                }
            },
        }
    }
}

} // verus!
