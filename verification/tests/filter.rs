use knot::filter::contains;
use knot::filter::matches_filter;
use knot::text::chars_of;

#[test]
fn a_part_is_found_where_it_stands() {
    assert!(contains("notebook", "note"));
    assert!(contains("notebook", "book"));
    assert!(contains("notebook", "teb"));
    assert!(contains("notebook", "notebook"));
}

#[test]
fn what_does_not_occur_is_not_found() {
    assert!(!contains("notebook", "x"));
    assert!(!contains("notebook", "notebooks"));
    assert!(!contains("notebook", "nb"));
    assert!(!contains("", "a"));
}

#[test]
fn the_empty_string_occurs_everywhere() {
    assert!(contains("notebook", ""));
    assert!(contains("", ""));
}

#[test]
fn parts_are_compared_character_for_character() {
    assert!(contains("caf\u{e9} au lait", "\u{e9} au"));
    assert!(!contains("Note", "note"));
    assert!(contains("aab", "ab"));
    assert!(contains("日本語", "本"));
}

#[test]
fn the_filter_does_not_regard_case() {
    assert!(matches_filter("Work", "wo"));
    assert!(matches_filter("work", "WO"));
    assert!(matches_filter("WORK", "ork"));
    assert!(matches_filter("\u{c9}cole", "\u{e9}co"));
}

#[test]
fn the_empty_filter_lets_every_name_pass() {
    assert!(matches_filter("Work", ""));
    assert!(matches_filter("", ""));
}

#[test]
fn a_filter_that_does_not_occur_lets_nothing_pass() {
    assert!(!matches_filter("Work", "play"));
    assert!(!matches_filter("", "a"));
    assert!(!matches_filter("Work", "works"));
}

#[test]
fn the_characters_of_a_string_come_in_order() {
    assert_eq!(chars_of("a\u{e9}b"), vec!['a', '\u{e9}', 'b']);
    assert_eq!(chars_of(""), Vec::<char>::new());
}
