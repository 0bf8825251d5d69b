//! The ways in which reading a page fails.

use vstd::prelude::*;

verus! {

/// Why a page yields no record. Each of these is fatal for the page: no partial record is
/// returned in its place.
#[derive(Clone, Copy, Debug, PartialEq, Eq)]
pub enum ExtractError {
    /// A selector pattern is no group of CSS selectors.
    InvalidSelector,
    /// No title element is on the page, or the first one holds no text.
    MissingTitle,
    /// A publisher entry has no category label before it, or the label holds no text.
    MissingPublisherLabel,
    /// A publisher entry's category label is not in the label table.
    UnrecognizedPublisherLabel,
    /// A publisher entry holds no display name.
    MissingPublisherName,
    /// A search result has no link attribute.
    MissingLink,
    /// A search result holds no name.
    MissingName,
}

} // verus!
