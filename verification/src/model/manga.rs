use vstd::prelude::*;
use crate::text::{chars_of, same_chars, same_text};

verus! {

/// The kind of work a record describes.
#[derive(Clone, Copy, Debug, PartialEq, Eq)]
pub enum MediaType {
    Novel,
    Manga,
    Unknown,
}

/// The media type that a label names; a label outside the vocabulary names `Unknown`.
pub open spec fn media_type_of_label(label: Seq<char>) -> MediaType {
    if label == "Novel"@ {
        MediaType::Novel
    } else if label == "Manga"@ {
        MediaType::Manga
    } else {
        MediaType::Unknown
    }
}

impl MediaType {
    /// Reads a media-type label. This never fails: an unrecognized label gives `Unknown`.
    pub fn from_label(label: &str) -> (media_type: MediaType)
        ensures
            media_type == media_type_of_label(label@),
    {
        if same_text(label, "Novel") {
            MediaType::Novel
        } else if same_text(label, "Manga") {
            MediaType::Manga
        } else {
            MediaType::Unknown
        }
    }
}

/// The serialization status of a work.
#[derive(Clone, Copy, Debug, PartialEq, Eq)]
pub enum Status {
    Complete,
    Ongoing,
    Hiatus,
}

/// The status that a label names, if it names one.
pub open spec fn status_of_label(label: Seq<char>) -> Option<Status> {
    if label == "Complete"@ {
        Some(Status::Complete)
    } else if label == "Ongoing"@ {
        Some(Status::Ongoing)
    } else if label == "Hiatus"@ {
        Some(Status::Hiatus)
    } else {
        None
    }
}

impl Status {
    /// Reads a status label; a label outside the vocabulary is no status.
    pub fn from_label(label: &str) -> (status: Option<Status>)
        ensures
            status == status_of_label(label@),
    {
        let chars = chars_of(label);
        Status::from_chars(&chars)
    }

    /// Reads a status label given as characters.
    pub fn from_chars(label: &Vec<char>) -> (status: Option<Status>)
        ensures
            status == status_of_label(label@),
    {
        if same_chars(label, &chars_of("Complete")) {
            Some(Status::Complete)
        } else if same_chars(label, &chars_of("Ongoing")) {
            Some(Status::Ongoing)
        } else if same_chars(label, &chars_of("Hiatus")) {
            Some(Status::Hiatus)
        } else {
            None
        }
    }
}

/// Which side of the market a publisher serves.
#[derive(Clone, Copy, Debug, PartialEq, Eq)]
pub enum PublisherType {
    Original,
    English,
}

/// The publisher type that a category label names, if it names one.
pub open spec fn publisher_type_of_label(label: Seq<char>) -> Option<PublisherType> {
    if label == "Original Publisher"@ {
        Some(PublisherType::Original)
    } else if label == "English Publisher"@ {
        Some(PublisherType::English)
    } else {
        None
    }
}

impl PublisherType {
    /// Reads a publisher category label; there is no fallback for a label outside the table.
    pub fn from_label(label: &str) -> (publisher_type: Option<PublisherType>)
        ensures
            publisher_type == publisher_type_of_label(label@),
    {
        if same_text(label, "Original Publisher") {
            Some(PublisherType::Original)
        } else if same_text(label, "English Publisher") {
            Some(PublisherType::English)
        } else {
            None
        }
    }
}

/// What a `PublisherInfo` holds, as mathematical values.
pub struct PublisherRecord {
    pub publisher_type: PublisherType,
    pub name: Seq<char>,
    pub vols: Option<usize>,
    pub status: Option<Status>,
}

impl PublisherRecord {
    /// A publisher has a name.
    pub open spec fn well_formed(self) -> bool {
        self.name.len() > 0
    }
}

/// One publisher of a work, with the volumes and status reported for it.
#[derive(Clone, Debug, PartialEq, Eq)]
pub struct PublisherInfo {
    pub publisher_type: PublisherType,
    pub name: String,
    pub vols: Option<usize>,
    pub status: Option<Status>,
}

impl View for PublisherInfo {
    type V = PublisherRecord;

    open spec fn view(&self) -> PublisherRecord {
        PublisherRecord {
            publisher_type: self.publisher_type,
            name: self.name@,
            vols: self.vols,
            status: self.status,
        }
    }
}

impl PublisherInfo {
    /// Makes a publisher of the given type and name, with the volumes and status reported for
    /// it.
    pub fn new(
        publisher_type: PublisherType,
        name: String,
        vols: Option<usize>,
        status: Option<Status>,
    ) -> (info: Self)
        ensures
            info@ == (PublisherRecord { publisher_type, name: name@, vols, status }),
    {
        PublisherInfo { publisher_type, name, vols, status }
    }
}

/// The views of a list of publishers, in the same order.
pub open spec fn publisher_records(publishers: Seq<PublisherInfo>) -> Seq<PublisherRecord> {
    Seq::new(publishers.len(), |i: int| publishers[i]@)
}

/// What a `MediaInfo` holds, as mathematical values.
pub struct MediaRecord {
    pub media_type: MediaType,
    pub title: Seq<char>,
    pub publishers: Seq<PublisherRecord>,
    pub licensed_in_english: bool,
}

impl MediaRecord {
    /// A work has a title, and each of its publishers a name.
    pub open spec fn well_formed(self) -> bool {
        &&& self.title.len() > 0
        &&& forall|i: int|
            0 <= i < self.publishers.len() ==> (#[trigger] self.publishers[i]).well_formed()
    }
}

/// The bibliographic record of one work.
#[derive(Clone, Debug, PartialEq, Eq)]
pub struct MediaInfo {
    media_type: MediaType,
    title: String,
    publishers: Vec<PublisherInfo>,
    licensed_in_english: bool,
}

impl View for MediaInfo {
    type V = MediaRecord;

    closed spec fn view(&self) -> MediaRecord {
        MediaRecord {
            media_type: self.media_type,
            title: self.title@,
            publishers: publisher_records(self.publishers@),
            licensed_in_english: self.licensed_in_english,
        }
    }
}

impl MediaInfo {
    /// Makes the record of a work from its parts; the publishers keep their order.
    pub fn new(
        media_type: MediaType,
        title: String,
        publishers: Vec<PublisherInfo>,
        licensed_in_english: bool,
    ) -> (info: Self)
        ensures
            info@ == (MediaRecord {
                media_type,
                title: title@,
                publishers: publisher_records(publishers@),
                licensed_in_english,
            }),
    {
        MediaInfo { media_type, title, publishers, licensed_in_english }
    }

    /// The kind of work.
    pub fn media_type(&self) -> (media_type: MediaType)
        ensures
            media_type == self@.media_type,
    {
        self.media_type
    }

    /// The title of the work.
    pub fn title(&self) -> (title: &String)
        ensures
            title@ == self@.title,
    {
        &self.title
    }

    /// The publishers of the work, in page order.
    pub fn publishers(&self) -> (publishers: &Vec<PublisherInfo>)
        ensures
            publisher_records(publishers@) == self@.publishers,
    {
        &self.publishers
    }

    /// Whether the work is licensed in English.
    pub fn licensed_in_english(&self) -> (licensed: bool)
        ensures
            licensed == self@.licensed_in_english,
    {
        self.licensed_in_english
    }
}

/// What a `SearchResult` holds, as mathematical values.
pub struct SearchRecord {
    pub name: Seq<char>,
    pub href: Seq<char>,
}

impl SearchRecord {
    /// A search result has a name.
    pub open spec fn well_formed(self) -> bool {
        self.name.len() > 0
    }
}

/// One entry of a search-results page: the name of a series and the link to its page.
#[derive(Clone, Debug, PartialEq, Eq)]
pub struct SearchResult {
    pub name: String,
    pub href: String,
}

impl View for SearchResult {
    type V = SearchRecord;

    open spec fn view(&self) -> SearchRecord {
        SearchRecord { name: self.name@, href: self.href@ }
    }
}

impl SearchResult {
    /// Makes a search result from the name of a series and the link to its page.
    pub fn new(name: String, href: String) -> (result: Self)
        ensures
            result@ == (SearchRecord { name: name@, href: href@ }),
    {
        SearchResult { name, href }
    }
}

/// The views of a list of search results, in the same order.
pub open spec fn search_records(results: Seq<SearchResult>) -> Seq<SearchRecord> {
    Seq::new(results.len(), |i: int| results[i]@)
}

} // verus!
