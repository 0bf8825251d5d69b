//! The record of a work, put together from its fields and its publishers.

use vstd::prelude::*;
use scraper::Html;
use crate::error::ExtractError;
use crate::field::{
    get_licensed_status, get_media_type, get_title, labelled_text, licensed_of, media_type_of,
    original_details_of, title_of,
};
use crate::locate::matches_of;
use crate::model::manga::{MediaInfo, MediaRecord, MediaType};
use crate::publisher::{
    get_publisher_info, lemma_publishers_keep_page_order, publisher_of, publishers_of,
    PUBLISHER_PATTERN,
};

verus! {

/// What a result holds, as mathematical values.
pub open spec fn outcome_view(outcome: Result<MediaInfo, ExtractError>) -> Result<
    MediaRecord,
    ExtractError,
> {
    match outcome {
        Ok(record) => Ok(record@),
        Err(e) => Err(e),
    }
}

/// The record of the work on `page`. The title and the publishers are required: where one
/// of them cannot be had there is no record, and the title's error comes first. The media type
/// and the licence flag always have a value.
pub open spec fn media_info_of(page: &Html) -> Result<MediaRecord, ExtractError> {
    match title_of(page) {
        Ok(title) => match publishers_of(page) {
            Ok(publishers) => Ok(
                MediaRecord {
                    media_type: media_type_of(page),
                    title,
                    publishers,
                    licensed_in_english: licensed_of(page),
                },
            ),
            Err(e) => Err(e),
        },
        Err(e) => Err(e),
    }
}

/// Reads the record of the work on `page`: its media type, title, publishers and whether it is
/// licensed in English.
///
/// A page without a title, or with a publisher entry that cannot be read, gives an error and
/// no partial record.
pub fn get_media_info(page: &Html) -> (info: Result<MediaInfo, ExtractError>)
    ensures
        outcome_view(info) == media_info_of(page),
        info matches Ok(record) ==> record@.well_formed(),
{
    proof {
        lemma_media_info_is_complete(page);
    }
    let media_type = get_media_type(page);
    let title = match get_title(page) {
        Ok(t) => t,
        Err(e) => {
            return Err(e);
        },
    };
    let publishers = match get_publisher_info(page) {
        Ok(list) => list,
        Err(e) => {
            return Err(e);
        },
    };
    let licensed = get_licensed_status(page);
    Ok(MediaInfo::new(media_type, title, publishers, licensed))
}

/// Every record that a page yields is complete: the work has a title and each publisher a
/// name.
pub proof fn lemma_media_info_is_complete(page: &Html)
    ensures
        media_info_of(page) matches Ok(record) ==> record.well_formed(),
{
    if let Ok(record) = media_info_of(page) {
        let entries = matches_of(page, PUBLISHER_PATTERN@)->Ok_0;
        lemma_publishers_keep_page_order(page);
        assert forall|i: int| 0 <= i < record.publishers.len() implies (
        #[trigger] record.publishers[i]).well_formed() by {
            assert(publisher_of(entries[i], original_details_of(page)) == Ok::<_, ExtractError>(
                record.publishers[i],
            ));
        }
    }
}

/// The licence flag of a record says exactly what stands beside the `Licensed` label: `true`
/// for `Yes`, `false` for `No`, and `false` for any other text and where there is none.
pub proof fn lemma_licensed_flag_reads_label(page: &Html)
    ensures
        media_info_of(page) matches Ok(record) ==> {
            &&& labelled_text(page, "Licensed"@) == Some("Yes"@) ==> record.licensed_in_english
            &&& labelled_text(page, "Licensed"@) == Some("No"@) ==> !record.licensed_in_english
            &&& labelled_text(page, "Licensed"@) != Some("Yes"@) ==> !record.licensed_in_english
        },
{
    reveal_strlit("Yes");
    reveal_strlit("No");
    assert("Yes"@.len() != "No"@.len());
}

/// A media-type text outside the vocabulary gives `Unknown`, and the media type never stands in
/// the way of a record: a page has one exactly where it has a title and readable publishers.
pub proof fn lemma_unknown_media_type_is_no_error(page: &Html)
    ensures
        media_info_of(page) is Ok <==> title_of(page) is Ok && publishers_of(page) is Ok,
        media_info_of(page) matches Ok(record) ==> record.media_type == media_type_of(page),
        match labelled_text(page, "Type"@) {
            Some(text) => text != "Novel"@ && text != "Manga"@ ==> media_type_of(page)
                == MediaType::Unknown,
            None => media_type_of(page) == MediaType::Unknown,
        },
{
}

/// Reading the same page twice gives equal outcomes: whatever two calls of `get_media_info`
/// return for one page, the two hold the same record or the same error.
pub proof fn lemma_reading_twice_gives_equal_records(
    page: &Html,
    first: Result<MediaInfo, ExtractError>,
    second: Result<MediaInfo, ExtractError>,
)
    requires
        outcome_view(first) == media_info_of(page),
        outcome_view(second) == media_info_of(page),
    ensures
        outcome_view(first) == outcome_view(second),
{
}

} // verus!
