use bakani::text::{chars_of, find_in, same_chars, same_text};

#[test]
fn chars_of_keeps_every_character_in_order() {
    assert_eq!(chars_of("a b"), vec!['a', ' ', 'b']);
    assert_eq!(chars_of(""), Vec::<char>::new());
    assert_eq!(chars_of("d\u{e9}j\u{e0}"), vec!['d', '\u{e9}', 'j', '\u{e0}']);
}

#[test]
fn same_text_compares_character_by_character() {
    assert!(same_text("Yes", "Yes"));
    assert!(same_text("", ""));
    assert!(!same_text("Yes", "yes"));
    assert!(!same_text("Yes", "Yes "));
    assert!(!same_text("Yes", "No"));
}

#[test]
fn same_chars_needs_equal_length_and_content() {
    assert!(same_chars(&vec!['a', 'b'], &vec!['a', 'b']));
    assert!(!same_chars(&vec!['a', 'b'], &vec!['a']));
    assert!(!same_chars(&vec!['a', 'b'], &vec!['a', 'c']));
    assert!(same_chars(&vec![], &vec![]));
}

#[test]
fn find_in_finds_a_run_anywhere() {
    let text = chars_of("Status in Country of Origin");
    assert!(find_in(&chars_of("Status"), &text));
    assert!(find_in(&chars_of("Origin"), &text));
    assert!(find_in(&chars_of("in Country"), &text));
    assert!(find_in(&text, &text));
}

#[test]
fn find_in_is_case_sensitive_and_needs_the_whole_run() {
    let text = chars_of("Status in Country of Origin");
    assert!(!find_in(&chars_of("status"), &text));
    assert!(!find_in(&chars_of("Origins"), &text));
    assert!(!find_in(&chars_of("Statusin"), &text));
}

#[test]
fn find_in_finds_the_empty_run_everywhere() {
    assert!(find_in(&chars_of(""), &chars_of("abc")));
    assert!(find_in(&chars_of(""), &chars_of("")));
    assert!(!find_in(&chars_of("a"), &chars_of("")));
}

#[test]
fn find_in_goes_on_after_a_partial_match() {
    assert!(find_in(&chars_of("aab"), &chars_of("aaab")));
    assert!(!find_in(&chars_of("aab"), &chars_of("aaa")));
}
