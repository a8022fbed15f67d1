use knot::listing::category_listing;
use knot::listing::note_listing;
use knot::listing::subfolder_listing;
use knot::listing::Entry;
use knot::listing::EntryKind;
use knot::listing::NoteFile;
use knot::listing::ROOT;

fn strings(items: &[&str]) -> Vec<String> {
    items.iter().map(|s| s.to_string()).collect()
}

fn dir(name: &str) -> Entry {
    Entry { name: name.to_string(), kind: EntryKind::Directory, modified: 0 }
}

fn file(name: &str, modified: u128) -> Entry {
    Entry { name: name.to_string(), kind: EntryKind::File, modified }
}

fn other(name: &str) -> Entry {
    Entry { name: name.to_string(), kind: EntryKind::Other, modified: 0 }
}

fn note(path: &[&str], modified: u128) -> NoteFile {
    NoteFile { path: strings(path), name: path[path.len() - 1].to_string(), modified }
}

#[test]
fn the_root_is_named_in_brackets() {
    assert_eq!(ROOT, "[Root]");
}

#[test]
fn an_empty_root_lists_only_its_own_entry() {
    assert_eq!(category_listing(&Vec::new(), ""), strings(&["[Root]"]));
}

#[test]
fn categories_are_the_directories_in_ascending_order() {
    let entries = vec![dir("work"), dir("home"), file("inbox.md", 5), dir("Archive"), other("socket")];
    assert_eq!(category_listing(&entries, ""), strings(&["[Root]", "Archive", "home", "work"]));
}

#[test]
fn the_root_leads_even_names_that_sort_before_it() {
    let entries = vec![dir("apple"), dir("Zebra"), dir("123")];
    assert_eq!(category_listing(&entries, ""), strings(&["[Root]", "123", "Zebra", "apple"]));
}

#[test]
fn hidden_directories_are_no_categories() {
    let entries = vec![dir(".git"), dir("work"), dir(".cache")];
    assert_eq!(category_listing(&entries, ""), strings(&["[Root]", "work"]));
}

#[test]
fn a_directory_named_like_the_root_is_not_listed_again() {
    let entries = vec![dir("[Root]"), dir("work")];
    assert_eq!(category_listing(&entries, ""), strings(&["[Root]", "work"]));
}

#[test]
fn a_category_is_listed_once() {
    let entries = vec![dir("work"), dir("home"), dir("work")];
    assert_eq!(category_listing(&entries, ""), strings(&["[Root]", "home", "work"]));
}

#[test]
fn the_filter_narrows_the_categories_but_keeps_the_root() {
    let entries = vec![dir("Work"), dir("home"), dir("homework"), dir("play")];
    assert_eq!(category_listing(&entries, "WORK"), strings(&["[Root]", "Work", "homework"]));
    assert_eq!(category_listing(&entries, "zzz"), strings(&["[Root]"]));
}

#[test]
fn subfolders_are_the_visible_directories_in_ascending_order() {
    let entries = vec![dir("b"), file("a.md", 1), dir(".hidden"), dir("a"), dir("b"), other("x")];
    assert_eq!(subfolder_listing(&entries), strings(&["a", "b"]));
    assert_eq!(subfolder_listing(&Vec::new()), Vec::<String>::new());
}

#[test]
fn a_subfolder_may_bear_the_name_of_the_root() {
    let entries = vec![dir("[Root]")];
    assert_eq!(subfolder_listing(&entries), strings(&["[Root]"]));
}

#[test]
fn notes_are_listed_newest_first() {
    let entries = vec![file("old.md", 10), file("new.md", 30), file("mid.md", 20)];
    let listed = note_listing(&entries, "", &strings(&["vault", "work"]));
    assert_eq!(
        listed,
        vec![
            note(&["vault", "work", "new.md"], 30),
            note(&["vault", "work", "mid.md"], 20),
            note(&["vault", "work", "old.md"], 10),
        ]
    );
}

#[test]
fn notes_of_one_time_stay_in_the_order_of_the_directory() {
    let entries =
        vec![file("c.md", 7), file("a.md", 7), file("z.md", 9), file("b.md", 7), file("y.md", 1)];
    let listed = note_listing(&entries, "", &strings(&["v"]));
    let names: Vec<&str> = listed.iter().map(|n| n.name.as_str()).collect();
    assert_eq!(names, vec!["z.md", "c.md", "a.md", "b.md", "y.md"]);
}

#[test]
fn only_visible_regular_files_are_notes() {
    let entries = vec![dir("sub"), file(".hidden.md", 9), other("pipe"), file("a.txt", 1)];
    let listed = note_listing(&entries, "", &strings(&["v"]));
    assert_eq!(listed, vec![note(&["v", "a.txt"], 1)]);
}

#[test]
fn the_filter_narrows_the_notes() {
    let entries = vec![file("Draft.md", 1), file("final.md", 2), file("draft-2.md", 3)];
    let listed = note_listing(&entries, "draft", &strings(&["v"]));
    let names: Vec<&str> = listed.iter().map(|n| n.name.as_str()).collect();
    assert_eq!(names, vec!["draft-2.md", "Draft.md"]);
    assert_eq!(note_listing(&entries, "zzz", &strings(&["v"])), Vec::<NoteFile>::new());
}

#[test]
fn a_note_of_unknown_time_comes_last() {
    let entries = vec![file("unknown.md", 0), file("known.md", 1)];
    let listed = note_listing(&entries, "", &Vec::new());
    assert_eq!(listed, vec![note(&["known.md"], 1), note(&["unknown.md"], 0)]);
}

#[test]
fn the_listing_agrees_with_a_stable_sort() {
    let mut entries = Vec::new();
    let mut seed: u128 = 12345;
    for i in 0..200 {
        seed = (seed * 6364136223846793005 + 1442695040888963407) % (1u128 << 64);
        entries.push(file(&format!("n{}.md", i), seed >> 60));
    }
    let listed = note_listing(&entries, "", &Vec::new());
    let mut expected: Vec<Entry> = entries.clone();
    expected.sort_by_key(|e| std::cmp::Reverse(e.modified));
    let got: Vec<&str> = listed.iter().map(|n| n.name.as_str()).collect();
    let want: Vec<&str> = expected.iter().map(|e| e.name.as_str()).collect();
    assert_eq!(got, want);
}

#[test]
fn the_categories_agree_with_a_sort_of_the_names() {
    let names = ["pear", "Apple", "fig", "apple", "Fig", "10", "2", "été", "zoo", "a b", "a"];
    let entries: Vec<Entry> = names.iter().map(|n| dir(n)).collect();
    let mut expected: Vec<String> = names.iter().map(|n| n.to_string()).collect();
    expected.sort();
    expected.insert(0, "[Root]".to_string());
    assert_eq!(category_listing(&entries, ""), expected);
}
