use bakani::field::labelled_value;
use bakani::publisher::publisher_entry;
use bakani::search::search_entry;
use bakani::locate::select;
use bakani::{
    get_licensed_status, get_media_info, get_media_type, get_original_publisher_info,
    get_publisher_info, get_title, parse_search_results, ExtractError, MediaInfo, MediaType,
    PublisherInfo, PublisherType, SearchResult, Status,
};
use scraper::Html;

fn block(label: &str, value: &str) -> String {
    format!(
        "<div class=\"sCat\"><b>{}</b></div><div class=\"sContent\">{}</div>",
        label, value
    )
}

fn publisher(name: &str) -> String {
    format!("<a href=\"/publisher/1\" title=\"Publisher Info\">{}</a>", name)
}

fn page(body: &str) -> Html {
    Html::parse_document(&format!("<html><body>{}</body></html>", body))
}

fn acme_page() -> Html {
    page(&format!(
        "<span class=\"releasestitle tabletitle\">Acme Story</span>{}{}{}{}",
        block("Type", "Manga"),
        block("Status in Country of Origin", "(10 Volumes, Complete)"),
        block("Licensed (in English)", "No"),
        block("Original Publisher", &publisher("ACME Press")),
    ))
}

fn two_market_page() -> Html {
    page(&format!(
        "<span class=\"releasestitle\">Two Markets</span>\
         <span class=\"releasestitle\">Second Title</span>{}{}{}{}{}",
        block("Type", "Novel"),
        block("Status in Country of Origin", "(7 Volumes, Ongoing)"),
        block("Licensed (in English)", "Yes"),
        block(
            "Original Publisher",
            &format!("{}, {}", publisher("Kadokawa"), publisher("Media Factory"))
        ),
        block(
            "English Publisher",
            &format!(
                "{} (3 Volumes - Ongoing)<br>{} (Complete)",
                publisher("Yen Press"),
                publisher("Seven Seas")
            )
        ),
    ))
}

#[test]
fn one_original_publisher_takes_the_shared_status() {
    let info = get_media_info(&acme_page()).unwrap();
    assert_eq!(info.publishers().len(), 1);
    assert_eq!(
        info.publishers()[0],
        PublisherInfo::new(
            PublisherType::Original,
            "ACME Press".to_string(),
            Some(10),
            Some(Status::Complete)
        )
    );
    assert_eq!(
        info,
        MediaInfo::new(
            MediaType::Manga,
            "Acme Story".to_string(),
            vec![PublisherInfo::new(
                PublisherType::Original,
                "ACME Press".to_string(),
                Some(10),
                Some(Status::Complete)
            )],
            false
        )
    );
}

#[test]
fn publishers_keep_page_order_and_each_english_one_its_own_fragment() {
    let info = get_media_info(&two_market_page()).unwrap();
    assert_eq!(info.media_type(), MediaType::Novel);
    assert_eq!(info.title(), "Two Markets");
    assert!(info.licensed_in_english());
    assert_eq!(
        info.publishers(),
        &vec![
            PublisherInfo::new(
                PublisherType::Original,
                "Kadokawa".to_string(),
                Some(7),
                Some(Status::Ongoing)
            ),
            PublisherInfo::new(
                PublisherType::Original,
                "Media Factory".to_string(),
                Some(7),
                Some(Status::Ongoing)
            ),
            PublisherInfo::new(
                PublisherType::English,
                "Yen Press".to_string(),
                Some(3),
                Some(Status::Ongoing)
            ),
            PublisherInfo::new(
                PublisherType::English,
                "Seven Seas".to_string(),
                None,
                Some(Status::Complete)
            ),
        ]
    );
}

#[test]
fn reading_a_page_twice_gives_equal_records() {
    let page = two_market_page();
    assert_eq!(get_media_info(&page), get_media_info(&page));
    let broken = page_without_title();
    assert_eq!(get_media_info(&broken), get_media_info(&broken));
}

#[test]
fn publishers_are_neither_merged_nor_sorted() {
    let page = page(&format!(
        "{}{}",
        block(
            "Original Publisher",
            &format!("{}{}{}", publisher("Zeta"), publisher("Alpha"), publisher("Zeta"))
        ),
        block("Status in Country of Origin", "(2 Volumes, Hiatus)"),
    ));
    let names: Vec<String> = get_publisher_info(&page)
        .unwrap()
        .into_iter()
        .map(|p| p.name)
        .collect();
    assert_eq!(names, vec!["Zeta", "Alpha", "Zeta"]);
}

#[test]
fn a_page_without_publishers_has_an_empty_list() {
    let page = page(&format!(
        "<span class=\"releasestitle\">Alone</span>{}",
        block("Type", "Manga")
    ));
    assert_eq!(get_publisher_info(&page), Ok(Vec::new()));
    assert_eq!(
        get_media_info(&page),
        Ok(MediaInfo::new(MediaType::Manga, "Alone".to_string(), Vec::new(), false))
    );
}

#[test]
fn labelled_value_is_the_text_after_the_labels_parent() {
    let page = acme_page();
    assert_eq!(labelled_value(&page, "Type"), Some("Manga"));
    assert_eq!(labelled_value(&page, "Status"), Some("(10 Volumes, Complete)"));
    assert_eq!(labelled_value(&page, "Licensed"), Some("No"));
    assert_eq!(labelled_value(&page, "Original"), Some("ACME Press"));
    assert_eq!(labelled_value(&page, "Genre"), None);
}

#[test]
fn labelled_value_is_absent_where_a_step_is_missing() {
    let no_parent_sibling = page("<div class=\"sCat\"><b>Type</b></div>");
    assert_eq!(labelled_value(&no_parent_sibling, "Type"), None);
    let only_text_after = page("<div class=\"sCat\"><b>Type</b></div>Manga");
    assert_eq!(labelled_value(&only_text_after, "Type"), None);
    let empty_value = page(&block("Type", ""));
    assert_eq!(labelled_value(&empty_value, "Type"), None);
    let skips_text_between = page(
        "<div class=\"sCat\"><b>Type</b></div> between <div class=\"sContent\">Novel</div>",
    );
    assert_eq!(labelled_value(&skips_text_between, "Type"), Some("Novel"));
}

#[test]
fn media_type_is_read_from_its_label() {
    assert_eq!(get_media_type(&page(&block("Type", "Manga"))), MediaType::Manga);
    assert_eq!(get_media_type(&page(&block("Type", "Novel"))), MediaType::Novel);
    assert_eq!(get_media_type(&page(&block("Type", "Unknown"))), MediaType::Unknown);
}

#[test]
fn an_unrecognized_or_missing_media_type_is_unknown_and_no_error() {
    assert_eq!(get_media_type(&page(&block("Type", "Manhua"))), MediaType::Unknown);
    assert_eq!(get_media_type(&page(&block("Type", "manga"))), MediaType::Unknown);
    assert_eq!(get_media_type(&page(&block("Type", "Manga "))), MediaType::Unknown);
    assert_eq!(get_media_type(&page(&block("Type", ""))), MediaType::Unknown);
    assert_eq!(get_media_type(&page("")), MediaType::Unknown);
    let info = get_media_info(&page(&format!(
        "<span class=\"releasestitle\">T</span>{}",
        block("Type", "Artbook")
    )))
    .unwrap();
    assert_eq!(info.media_type(), MediaType::Unknown);
}

#[test]
fn licensed_is_true_for_yes_only() {
    assert!(get_licensed_status(&page(&block("Licensed (in English)", "Yes"))));
    assert!(!get_licensed_status(&page(&block("Licensed (in English)", "No"))));
    assert!(!get_licensed_status(&page(&block("Licensed (in English)", "yes"))));
    assert!(!get_licensed_status(&page(&block("Licensed (in English)", "Yes!"))));
    assert!(!get_licensed_status(&page(&block("Licensed (in English)", "Maybe"))));
    assert!(!get_licensed_status(&page(&block("Licensed (in English)", ""))));
    assert!(!get_licensed_status(&page(&block("Type", "Yes"))));
    assert!(!get_licensed_status(&page("")));
}

#[test]
fn the_licence_flag_of_a_record_follows_the_label() {
    let with = |value: &str| {
        get_media_info(&page(&format!(
            "<span class=\"releasestitle\">T</span>{}",
            block("Licensed (in English)", value)
        )))
        .unwrap()
        .licensed_in_english()
    };
    assert!(with("Yes"));
    assert!(!with("No"));
    assert!(!with("N/A"));
}

#[test]
fn the_original_status_is_read_from_its_label() {
    assert_eq!(
        get_original_publisher_info(&acme_page()),
        (Some(10), Some(Status::Complete))
    );
    assert_eq!(
        get_original_publisher_info(&page(&block("Status", "(Hiatus)"))),
        (None, Some(Status::Hiatus))
    );
    assert_eq!(
        get_original_publisher_info(&page(&block("Status", "42 Chapters"))),
        (Some(42), None)
    );
}

#[test]
fn a_missing_original_status_is_absent_and_no_error() {
    assert_eq!(get_original_publisher_info(&page("")), (None, None));
    assert_eq!(
        get_original_publisher_info(&page(&block("Status", ""))),
        (None, None)
    );
    assert_eq!(
        get_original_publisher_info(&page("<div class=\"sCat\"><b>Status</b></div>")),
        (None, None)
    );
    let info = get_publisher_info(&page(&block("Original Publisher", &publisher("Solo"))));
    assert_eq!(
        info,
        Ok(vec![PublisherInfo::new(
            PublisherType::Original,
            "Solo".to_string(),
            None,
            None
        )])
    );
}

fn page_without_title() -> Html {
    page(&block("Original Publisher", &publisher("ACME Press")))
}

#[test]
fn the_title_is_the_first_text_of_the_first_title_element() {
    assert_eq!(get_title(&acme_page()), Ok("Acme Story".to_string()));
    assert_eq!(get_title(&two_market_page()), Ok("Two Markets".to_string()));
    let nested = page("<span class=\"releasestitle\"><i>Inner</i> Outer</span>");
    assert_eq!(get_title(&nested), Ok("Inner".to_string()));
}

#[test]
fn a_page_without_title_gives_no_record() {
    assert_eq!(get_title(&page_without_title()), Err(ExtractError::MissingTitle));
    assert_eq!(get_media_info(&page_without_title()), Err(ExtractError::MissingTitle));
    let empty = page("<span class=\"releasestitle\"></span><span class=\"releasestitle\">B</span>");
    assert_eq!(get_title(&empty), Err(ExtractError::MissingTitle));
    assert_eq!(get_media_info(&page("")), Err(ExtractError::MissingTitle));
}

#[test]
fn the_title_error_comes_before_a_publisher_error() {
    let page = page(&block("French Publisher", &publisher("Kana")));
    assert_eq!(get_media_info(&page), Err(ExtractError::MissingTitle));
    assert_eq!(
        get_publisher_info(&page),
        Err(ExtractError::UnrecognizedPublisherLabel)
    );
}

#[test]
fn a_publisher_with_an_unrecognized_label_fails_the_page() {
    let page = page(&format!(
        "<span class=\"releasestitle\">T</span>{}{}",
        block("Original Publisher", &publisher("Shueisha")),
        block("French Publisher", &publisher("Kana")),
    ));
    assert_eq!(
        get_publisher_info(&page),
        Err(ExtractError::UnrecognizedPublisherLabel)
    );
    assert_eq!(
        get_media_info(&page),
        Err(ExtractError::UnrecognizedPublisherLabel)
    );
}

#[test]
fn a_publisher_without_label_fails_the_page() {
    let no_sibling_before = page(&format!("<div class=\"sContent\">{}</div>", publisher("A")));
    assert_eq!(
        get_publisher_info(&no_sibling_before),
        Err(ExtractError::MissingPublisherLabel)
    );
    let label_without_text = page(&block("", &publisher("A")));
    assert_eq!(
        get_publisher_info(&label_without_text),
        Err(ExtractError::MissingPublisherLabel)
    );
}

#[test]
fn a_publisher_without_name_fails_the_page() {
    let page = page(&block("Original Publisher", &publisher("")));
    assert_eq!(
        get_publisher_info(&page),
        Err(ExtractError::MissingPublisherName)
    );
}

#[test]
fn an_english_publisher_without_fragment_has_neither_volumes_nor_status() {
    let nothing_after = page(
        "<div class=sCat><b>English Publisher</b></div>\
         <div class=sContent><a title='Publisher Info'>Viz</a></div>",
    );
    assert_eq!(
        get_publisher_info(&nothing_after),
        Ok(vec![PublisherInfo::new(
            PublisherType::English,
            "Viz".to_string(),
            None,
            None
        )])
    );
    let element_after = page(&block(
        "English Publisher",
        &format!("{}<br>(3 Volumes)", publisher("Viz")),
    ));
    assert_eq!(
        get_publisher_info(&element_after),
        Ok(vec![PublisherInfo::new(
            PublisherType::English,
            "Viz".to_string(),
            None,
            None
        )])
    );
}

#[test]
fn a_missing_fragment_does_not_fail_a_record() {
    let page = page(&format!(
        "<span class=\"releasestitle\">T</span>{}{}{}",
        block("Status in Country of Origin", "(10 Volumes, Complete)"),
        block("Original Publisher", &publisher("Hakusensha")),
        block("English Publisher", &publisher("Viz")),
    ));
    let info = get_media_info(&page).unwrap();
    assert_eq!(
        info.publishers(),
        &vec![
            PublisherInfo::new(
                PublisherType::Original,
                "Hakusensha".to_string(),
                Some(10),
                Some(Status::Complete)
            ),
            PublisherInfo::new(PublisherType::English, "Viz".to_string(), None, None),
        ]
    );
}

#[test]
fn the_first_failing_publisher_decides_the_error() {
    let page = page(&format!(
        "{}{}{}{}",
        block("Original Publisher", &publisher("Fine")),
        block("English Publisher", &publisher("No Fragment")),
        block("Original Publisher", &publisher("")),
        block("French Publisher", &publisher("Bad Label")),
    ));
    assert_eq!(
        get_publisher_info(&page),
        Err(ExtractError::MissingPublisherName)
    );
}

#[test]
fn an_english_fragment_degrades_like_any_fragment() {
    let page = page(&block(
        "English Publisher",
        &format!(
            "{} some words<br>{} (12 Volumes, Dropped) more<br>{} ()",
            publisher("A"),
            publisher("B"),
            publisher("C")
        ),
    ));
    let details: Vec<(Option<usize>, Option<Status>)> = get_publisher_info(&page)
        .unwrap()
        .into_iter()
        .map(|p| (p.vols, p.status))
        .collect();
    assert_eq!(details, vec![(None, None), (Some(12), None), (None, None)]);
}

#[test]
fn one_publisher_entry_at_a_time() {
    let page = two_market_page();
    let entries = select(&page, "div.sContent > a[title=\"Publisher Info\"]").unwrap();
    assert_eq!(entries.len(), 4);
    assert_eq!(
        publisher_entry(entries[0], (Some(1), None)),
        Ok(PublisherInfo::new(
            PublisherType::Original,
            "Kadokawa".to_string(),
            Some(1),
            None
        ))
    );
    assert_eq!(
        publisher_entry(entries[2], (Some(1), None)),
        Ok(PublisherInfo::new(
            PublisherType::English,
            "Yen Press".to_string(),
            Some(3),
            Some(Status::Ongoing)
        ))
    );
}

fn search_page(links: &str) -> Html {
    page(&format!(
        "<div id=\"main_content\"><div class=\"p-2\"><div class=\"row\">{}</div></div></div>",
        links
    ))
}

fn series(link: &str) -> String {
    format!(
        "<div class=\"p-3\"><div><div><div class=\"d-flex\"><div class=\"text\">{}</div>\
         </div></div></div></div>",
        link
    )
}

#[test]
fn three_links_give_three_results_in_page_order() {
    let page = search_page(&format!(
        "{}{}{}",
        series("<a href=\"/series/b\">Beta</a>"),
        series("<a href=\"https://example.org/series/a\">Alpha</a>"),
        series("<a href=\"/series/c\"><i>Gamma</i> Ray</a>"),
    ));
    let results = parse_search_results(&page).unwrap();
    assert_eq!(
        results,
        vec![
            SearchResult::new("Beta".to_string(), "/series/b".to_string()),
            SearchResult::new("Alpha".to_string(), "https://example.org/series/a".to_string()),
            SearchResult::new("Gamma".to_string(), "/series/c".to_string()),
        ]
    );
    assert!(results.iter().all(|r| !r.name.is_empty() && !r.href.is_empty()));
}

#[test]
fn only_links_in_the_results_layout_count() {
    let page = search_page(&format!(
        "<a href=\"/elsewhere\">Outside</a>{}<div class=\"p-3\"><a href=\"/x\">Shallow</a></div>",
        series("<a href=\"/series/1\">Inside</a>"),
    ));
    assert_eq!(
        parse_search_results(&page),
        Ok(vec![SearchResult::new("Inside".to_string(), "/series/1".to_string())])
    );
    assert_eq!(parse_search_results(&search_page("")), Ok(Vec::new()));
    assert_eq!(parse_search_results(&acme_page()), Ok(Vec::new()));
}

#[test]
fn a_link_without_target_fails_the_page() {
    let page = search_page(&format!(
        "{}{}",
        series("<a href=\"/series/1\">First</a>"),
        series("<a>Second</a>"),
    ));
    assert_eq!(parse_search_results(&page), Err(ExtractError::MissingLink));
}

#[test]
fn a_link_without_name_fails_the_page() {
    let page = search_page(&series("<a href=\"/series/1\"></a>"));
    assert_eq!(parse_search_results(&page), Err(ExtractError::MissingName));
    let page = search_page(&series("<a href=\"/series/1\"><img src=\"x.png\"></a>"));
    assert_eq!(parse_search_results(&page), Err(ExtractError::MissingName));
}

#[test]
fn a_missing_target_is_reported_before_a_missing_name() {
    let page = search_page(&series("<a></a>"));
    assert_eq!(parse_search_results(&page), Err(ExtractError::MissingLink));
}

#[test]
fn an_empty_target_is_still_a_target() {
    let page = search_page(&series("<a href=\"\">Name</a>"));
    assert_eq!(
        parse_search_results(&page),
        Ok(vec![SearchResult::new("Name".to_string(), "".to_string())])
    );
}

#[test]
fn one_search_link_at_a_time() {
    let page = page("<a href=\"/a\">A</a><a name=\"x\">B</a>");
    let links = select(&page, "a").unwrap();
    assert_eq!(
        search_entry(links[0]),
        Ok(SearchResult::new("A".to_string(), "/a".to_string()))
    );
    assert_eq!(search_entry(links[1]), Err(ExtractError::MissingLink));
}
