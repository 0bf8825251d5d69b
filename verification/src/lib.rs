//! Reads bibliographic records and search results out of the pages of a manga and novel
//! database.
//!
//! The caller fetches a page and parses it; this library finds the fields in the parsed page
//! and turns them into typed records.

pub mod error;
pub mod extract;
pub mod field;
pub mod fragment;
pub mod gather;
pub mod locate;
pub mod model;
pub mod page;
pub mod publisher;
pub mod render;
pub mod search;
pub mod text;

pub use crate::error::ExtractError;
pub use crate::extract::get_media_info;
pub use crate::field::{
    get_licensed_status, get_media_type, get_original_publisher_info, get_title,
};
pub use crate::fragment::get_volume_details;
pub use crate::locate::get_value_of_block_with_text;
pub use crate::publisher::get_publisher_info;
pub use crate::search::parse_search_results;
pub use crate::model::manga::{
    MediaInfo, MediaType, PublisherInfo, PublisherType, SearchResult, Status,
};
