//! The human-readable rendering of a record.
//!
//! A record is rendered as lines: its title, its media type, a heading for its publishers, one
//! line for each publisher and last whether it is licensed in English.

use vstd::prelude::*;
use vstd::string::*;
use crate::model::manga::{
    publisher_records, MediaInfo, MediaRecord, MediaType, PublisherInfo, PublisherRecord,
    PublisherType, Status,
};

verus! {

/// The decimal digits, in order of their value.
pub const DIGITS: &'static str = "0123456789";

/// What stands for a volume count or a status that is absent.
pub const ABSENT: &'static str = "N/A";

/// The character that writes the digit `d`.
pub open spec fn digit_char(d: nat) -> char
    recommends
        d < 10,
{
    DIGITS@[d as int]
}

/// The decimal writing of `n`, without leading zeros.
pub open spec fn decimal(n: nat) -> Seq<char>
    decreases n,
{
    if n < 10 {
        seq![digit_char(n)]
    } else {
        decimal(n / 10).push(digit_char(n % 10))
    }
}

/// The name of a media type.
pub open spec fn media_type_name(media_type: MediaType) -> Seq<char> {
    match media_type {
        MediaType::Novel => "Novel"@,
        MediaType::Manga => "Manga"@,
        MediaType::Unknown => "Unknown"@,
    }
}

/// The name of a status.
pub open spec fn status_name(status: Status) -> Seq<char> {
    match status {
        Status::Complete => "Complete"@,
        Status::Ongoing => "Ongoing"@,
        Status::Hiatus => "Hiatus"@,
    }
}

/// The name of a publisher type.
pub open spec fn publisher_type_name(publisher_type: PublisherType) -> Seq<char> {
    match publisher_type {
        PublisherType::Original => "Original"@,
        PublisherType::English => "English"@,
    }
}

/// The line of one publisher, without its line end: its name, its type in brackets, its
/// volume count and its status in brackets, with `N/A` for what is absent.
pub open spec fn publisher_line(publisher: PublisherRecord) -> Seq<char> {
    publisher.name + " ("@ + publisher_type_name(publisher.publisher_type) + ") - Volumes: "@
        + (match publisher.vols {
        Some(n) => decimal(n as nat),
        None => ABSENT@,
    }) + " ("@ + (match publisher.status {
        Some(status) => status_name(status),
        None => ABSENT@,
    }) + ")"@
}

/// The lines of a list of publishers, each with its line end.
pub open spec fn publisher_lines(publishers: Seq<PublisherRecord>) -> Seq<char>
    decreases publishers.len(),
{
    if publishers.len() == 0 {
        Seq::empty()
    } else {
        publisher_lines(publishers.drop_last()) + publisher_line(publishers.last()) + "\n"@
    }
}

/// The rendering of a record.
pub open spec fn rendering(record: MediaRecord) -> Seq<char> {
    "Title: "@ + record.title + "\nMedia Type: "@ + media_type_name(record.media_type)
        + "\nPublishers:\n"@ + publisher_lines(record.publishers) + "Licensed in English: "@ + (
    if record.licensed_in_english {
        "true"@
    } else {
        "false"@
    })
}

/// Writes `n` in decimal.
pub fn decimal_text(n: usize) -> (text: String)
    ensures
        text@ == decimal(n as nat),
    decreases n,
{
    proof {
        reveal_strlit("0123456789");
    }
    if n < 10 {
        let digit = DIGITS.substring_ascii(n, n + 1);
        assert(digit@ == seq![digit_char(n as nat)]);
        String::from_str(digit)
    } else {
        let mut text = decimal_text(n / 10);
        let last: usize = n % 10;
        let digit = DIGITS.substring_ascii(last, last + 1);
        assert(digit@ == seq![digit_char(last as nat)]);
        text.append(digit);
        assert(text@ == decimal((n / 10) as nat).push(digit_char(last as nat)));
        text
    }
}

impl MediaType {
    /// The name of this media type.
    pub fn name(&self) -> (name: &'static str)
        ensures
            name@ == media_type_name(*self),
    {
        match self {
            MediaType::Novel => "Novel",
            MediaType::Manga => "Manga",
            MediaType::Unknown => "Unknown",
        }
    }
}

impl Status {
    /// The name of this status.
    pub fn name(&self) -> (name: &'static str)
        ensures
            name@ == status_name(*self),
    {
        match self {
            Status::Complete => "Complete",
            Status::Ongoing => "Ongoing",
            Status::Hiatus => "Hiatus",
        }
    }
}

impl PublisherType {
    /// The name of this publisher type.
    pub fn name(&self) -> (name: &'static str)
        ensures
            name@ == publisher_type_name(*self),
    {
        match self {
            PublisherType::Original => "Original",
            PublisherType::English => "English",
        }
    }
}

impl PublisherInfo {
    /// Renders this publisher as one line, without a line end.
    pub fn render(&self) -> (line: String)
        ensures
            line@ == publisher_line(self@),
    {
        let mut line = self.name.clone();
        line.append(" (");
        line.append(self.publisher_type.name());
        line.append(") - Volumes: ");
        match self.vols {
            Some(n) => {
                let count = decimal_text(n);
                line.append(count.as_str());
            },
            None => {
                line.append(ABSENT);
            },
        }
        line.append(" (");
        match self.status {
            Some(status) => {
                line.append(status.name());
            },
            None => {
                line.append(ABSENT);
            },
        }
        line.append(")");
        line
    }
}

impl MediaInfo {
    /// Renders this record as lines of text.
    pub fn render(&self) -> (text: String)
        ensures
            text@ == rendering(self@),
    {
        let mut text = String::from_str("Title: ");
        text.append(self.title().as_str());
        text.append("\nMedia Type: ");
        text.append(self.media_type().name());
        text.append("\nPublishers:\n");
        let ghost head = text@;
        let publishers = self.publishers();
        let mut i: usize = 0;
        assert(publishers@.take(0).len() == 0);
        assert(publisher_records(publishers@).take(0).len() == 0);
        assert(text@ == head + publisher_lines(self@.publishers.take(0)));
        while i < publishers.len()
            invariant
                i <= publishers.len(),
                publisher_records(publishers@) == self@.publishers,
                text@ == head + publisher_lines(self@.publishers.take(i as int)),
            decreases publishers.len() - i,
        {
            let line = publishers[i].render();
            proof {
                let all = self@.publishers;
                assert(all.take(i + 1).drop_last() == all.take(i as int));
                assert(all.take(i + 1).last() == publishers@[i as int]@);
            }
            text.append(line.as_str());
            text.append("\n");
            i += 1;
        }
        assert(self@.publishers.take(i as int) == self@.publishers);
        text.append("Licensed in English: ");
        if self.licensed_in_english() {
            text.append("true");
        } else {
            text.append("false");
        }
        text
    }
}

} // verus!
