//! The fields of a record that stand alone on a page: media type, licence flag, the status
//! of the original publication and the title.

use vstd::prelude::*;
use vstd::string::*;
use scraper::Html;
use crate::error::ExtractError;
use crate::fragment::{get_volume_details, volume_details};
use crate::locate::{block_with_text, get_value_of_block_with_text, matches_of, select};
use crate::model::manga::{media_type_of_label, MediaType, Status};
use crate::page::{
    element_first_text, element_next_sibling, element_parent, first_text, next_sibling_element,
    parent_element, str_view,
};
use crate::text::same_text;

verus! {

/// Selects the label of every metadata block.
pub const LABEL_PATTERN: &'static str = "div.sCat > b";

/// The text that stands beside the first label holding `label`: the first text of the element
/// that follows the label's parent. There is none where the label, its parent, the element
/// after it or its text is missing.
pub open spec fn labelled_text(page: &Html, label: Seq<char>) -> Option<Seq<char>> {
    match block_with_text(page, LABEL_PATTERN@, Some(label)) {
        Some(block) => match parent_element(block) {
            Some(parent) => match next_sibling_element(parent) {
                Some(value) => first_text(value),
                None => None,
            },
            None => None,
        },
        None => None,
    }
}

/// Reads the text that stands beside the first label holding `label`.
pub fn labelled_value<'a>(page: &'a Html, label: &str) -> (value: Option<&'a str>)
    ensures
        str_view(value) == labelled_text(page, label@),
{
    let block = get_value_of_block_with_text(
        page,
        String::from_str(LABEL_PATTERN),
        Some(String::from_str(label)),
    );
    match block {
        Some(b) => match element_parent(b) {
            Some(parent) => match element_next_sibling(parent) {
                Some(value) => element_first_text(value),
                None => None,
            },
            None => None,
        },
        None => None,
    }
}

/// The media type that the text beside the `Type` label stands for: what it names, and
/// `Unknown` where it is missing or names no media type.
pub open spec fn media_type_from(text: Option<Seq<char>>) -> MediaType {
    match text {
        Some(t) => media_type_of_label(t),
        None => MediaType::Unknown,
    }
}

/// Reads the media type from the text beside its label. This never fails.
pub fn read_media_type(text: Option<&str>) -> (media_type: MediaType)
    ensures
        media_type == media_type_from(str_view(text)),
{
    match text {
        Some(t) => MediaType::from_label(t),
        None => MediaType::Unknown,
    }
}

/// The media type of the work on `page`.
pub open spec fn media_type_of(page: &Html) -> MediaType {
    media_type_from(labelled_text(page, "Type"@))
}

/// Reads the media type of the work on `page`. This never fails.
pub fn get_media_type(page: &Html) -> (media_type: MediaType)
    ensures
        media_type == media_type_of(page),
{
    read_media_type(labelled_value(page, "Type"))
}

/// Whether the text beside the `Licensed` label says that the work is licensed: it is exactly
/// `Yes`.
pub open spec fn licensed_from(text: Option<Seq<char>>) -> bool {
    text == Some("Yes"@)
}

/// Reads the licence flag from the text beside its label. This never fails: anything but an
/// exact `Yes` is `false`.
pub fn read_licensed(text: Option<&str>) -> (licensed: bool)
    ensures
        licensed == licensed_from(str_view(text)),
{
    match text {
        Some(t) => same_text(t, "Yes"),
        None => false,
    }
}

/// Whether the work on `page` is licensed in English.
pub open spec fn licensed_of(page: &Html) -> bool {
    licensed_from(labelled_text(page, "Licensed"@))
}

/// Reads whether the work on `page` is licensed in English. This never fails.
pub fn get_licensed_status(page: &Html) -> (licensed: bool)
    ensures
        licensed == licensed_of(page),
{
    read_licensed(labelled_value(page, "Licensed"))
}

/// The volumes and status that a fragment stands for, and nothing where it is missing.
pub open spec fn details_from(fragment: Option<Seq<char>>) -> (Option<usize>, Option<Status>) {
    match fragment {
        Some(f) => volume_details(f),
        None => (None, None),
    }
}

/// Reads volumes and status from a fragment that may be missing. This never fails.
pub fn read_details(fragment: Option<&str>) -> (details: (Option<usize>, Option<Status>))
    ensures
        details == details_from(str_view(fragment)),
{
    match fragment {
        Some(f) => get_volume_details(f),
        None => (None, None),
    }
}

/// The volumes and status that `page` reports for the original publisher: what the fragment
/// beside the `Status` label holds.
pub open spec fn original_details_of(page: &Html) -> (Option<usize>, Option<Status>) {
    details_from(labelled_text(page, "Status"@))
}

/// Reads the volumes and status that `page` reports for the original publisher. This never
/// fails.
pub fn get_original_publisher_info(page: &Html) -> (details: (Option<usize>, Option<Status>))
    ensures
        details == original_details_of(page),
{
    read_details(labelled_value(page, "Status"))
}

/// Selects the title of the work.
pub const TITLE_PATTERN: &'static str = "span.releasestitle";

/// The title that the first text of a title element stands for. A missing text is no title,
/// nor is an empty one.
pub open spec fn title_from(text: Option<Seq<char>>) -> Result<Seq<char>, ExtractError> {
    match text {
        Some(title) => if title.len() == 0 {
            Err(ExtractError::MissingTitle)
        } else {
            Ok(title)
        },
        None => Err(ExtractError::MissingTitle),
    }
}

/// Reads the title from the first text of a title element.
pub fn read_title(text: Option<&str>) -> (title: Result<String, ExtractError>)
    ensures
        match title {
            Ok(t) => title_from(str_view(text)) == Ok::<_, ExtractError>(t@),
            Err(e) => title_from(str_view(text)) == Err::<Seq<char>, _>(e),
        },
{
    match text {
        Some(t) => if t.unicode_len() == 0 {
            Err(ExtractError::MissingTitle)
        } else {
            Ok(String::from_str(t))
        },
        None => Err(ExtractError::MissingTitle),
    }
}

/// The title of the work on `page`: what the first text of the first title element stands
/// for. A page without a title element has no title.
pub open spec fn title_of(page: &Html) -> Result<Seq<char>, ExtractError> {
    match matches_of(page, TITLE_PATTERN@) {
        Ok(found) => if found.len() == 0 {
            Err(ExtractError::MissingTitle)
        } else {
            title_from(first_text(found[0]))
        },
        Err(e) => Err(e),
    }
}

/// Reads the title of the work on `page`.
pub fn get_title(page: &Html) -> (title: Result<String, ExtractError>)
    ensures
        match title {
            Ok(t) => title_of(page) == Ok::<_, ExtractError>(t@),
            Err(e) => title_of(page) == Err::<Seq<char>, _>(e),
        },
{
    let found = match select(page, TITLE_PATTERN) {
        Ok(elements) => elements,
        Err(e) => {
            return Err(e);
        },
    };
    if found.len() == 0 {
        return Err(ExtractError::MissingTitle);
    }
    read_title(element_first_text(found[0]))
}

} // verus!
