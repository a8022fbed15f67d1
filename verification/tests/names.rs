use knot::names::hidden;
use knot::names::insert_name;
use knot::names::name_less;

fn strings(items: &[&str]) -> Vec<String> {
    items.iter().map(|s| s.to_string()).collect()
}

#[test]
fn a_name_comes_before_a_greater_one() {
    assert!(name_less("a", "b"));
    assert!(!name_less("b", "a"));
}

#[test]
fn no_name_comes_before_itself() {
    assert!(!name_less("work", "work"));
    assert!(!name_less("", ""));
}

#[test]
fn a_prefix_comes_before_the_longer_name() {
    assert!(name_less("note", "notes"));
    assert!(!name_less("notes", "note"));
    assert!(name_less("", "a"));
}

#[test]
fn capitals_come_before_small_letters() {
    assert!(name_less("Zebra", "apple"));
    assert!(name_less("Zebra", "[Root]"));
    assert!(name_less("[Root]", "apple"));
}

#[test]
fn the_order_is_that_of_the_strings_themselves() {
    let samples = ["", "a", "A", "ab", "b", "é", "z", "日本", "e\u{301}", "~", "10", "9", "[Root]"];
    for a in samples.iter() {
        for b in samples.iter() {
            assert_eq!(name_less(a, b), a < b, "{:?} and {:?}", a, b);
        }
    }
}

#[test]
fn a_leading_dot_hides_a_name() {
    assert!(hidden(".git"));
    assert!(hidden("."));
    assert!(!hidden("a.b"));
    assert!(!hidden("notes"));
    assert!(!hidden(""));
}

#[test]
fn a_name_is_put_at_its_place() {
    let mut names = strings(&["b", "d"]);
    insert_name(&mut names, "c".to_string());
    assert_eq!(names, strings(&["b", "c", "d"]));
    insert_name(&mut names, "a".to_string());
    assert_eq!(names, strings(&["a", "b", "c", "d"]));
    insert_name(&mut names, "e".to_string());
    assert_eq!(names, strings(&["a", "b", "c", "d", "e"]));
}

#[test]
fn a_name_that_is_there_is_not_put_in_again() {
    let mut names = strings(&["a", "b", "c"]);
    insert_name(&mut names, "b".to_string());
    assert_eq!(names, strings(&["a", "b", "c"]));
    insert_name(&mut names, "c".to_string());
    insert_name(&mut names, "a".to_string());
    assert_eq!(names, strings(&["a", "b", "c"]));
}

#[test]
fn the_first_name_makes_a_list_of_one() {
    let mut names: Vec<String> = Vec::new();
    insert_name(&mut names, "only".to_string());
    assert_eq!(names, strings(&["only"]));
}

#[test]
fn in_a_list_out_of_order_a_name_goes_in_front_of_the_greater_ones_at_the_end() {
    let mut names = strings(&["m", "a", "x", "z"]);
    insert_name(&mut names, "n".to_string());
    assert_eq!(names, strings(&["m", "a", "n", "x", "z"]));
    insert_name(&mut names, "a".to_string());
    assert_eq!(names, strings(&["m", "a", "n", "x", "z"]));
}
