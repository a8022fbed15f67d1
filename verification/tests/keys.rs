use knot::listing::Entry;
use knot::listing::EntryKind;
use knot::model::Focus;
use knot::model::InputMode;
use knot::model::Key;
use knot::action::Action;
use knot::state::VaultState;

fn strings(items: &[&str]) -> Vec<String> {
    items.iter().map(|s| s.to_string()).collect()
}

fn dir(name: &str) -> Entry {
    Entry { name: name.to_string(), kind: EntryKind::Directory, modified: 0 }
}

fn file(name: &str, modified: u128) -> Entry {
    Entry { name: name.to_string(), kind: EntryKind::File, modified }
}

/// A state over a root with the categories `home` and `work` and two notes.
fn loaded() -> VaultState {
    let mut state = VaultState::new(strings(&["v"]));
    let root = vec![dir("work"), dir("home"), file("b.md", 2), file("a.md", 1)];
    state.load_categories(&root);
    state.load_subfolders(&root);
    state.load_files(&root);
    state
}

fn press(state: &mut VaultState, keys: &str) -> Action {
    let mut last = Action::Nothing;
    for c in keys.chars() {
        last = state.handle_key(Key::Char(c));
    }
    last
}

#[test]
fn q_asks_to_leave() {
    let mut state = loaded();
    assert_eq!(state.handle_key(Key::Char('q')), Action::Quit);
    assert!(state.should_quit());
}

#[test]
fn capital_s_asks_for_a_synchronization() {
    let mut state = loaded();
    assert_eq!(state.handle_key(Key::Char('S')), Action::Sync);
    assert_eq!(state.mode(), InputMode::Normal);
    assert!(!state.should_quit());
}

#[test]
fn r_asks_for_a_refresh() {
    let mut state = loaded();
    assert_eq!(state.handle_key(Key::Char('r')), Action::Refresh);
}

#[test]
fn tab_cycles_the_focus() {
    let mut state = loaded();
    assert_eq!(state.handle_key(Key::Tab), Action::Nothing);
    assert_eq!(state.focus(), Focus::Subfolders);
    state.handle_key(Key::Tab);
    assert_eq!(state.focus(), Focus::Files);
    state.handle_key(Key::Tab);
    assert_eq!(state.focus(), Focus::Categories);
}

#[test]
fn left_and_right_move_the_category_whatever_has_the_focus() {
    let mut state = loaded();
    state.set_focus(Focus::Files);
    assert_eq!(state.handle_key(Key::Right), Action::Refresh);
    assert_eq!(state.selected_category(), "home");
    assert_eq!(state.handle_key(Key::Char('l')), Action::Refresh);
    assert_eq!(state.selected_category(), "work");
    assert_eq!(state.handle_key(Key::Char('l')), Action::Refresh);
    assert_eq!(state.selected_category(), "[Root]");
    assert_eq!(state.handle_key(Key::Left), Action::Refresh);
    assert_eq!(state.selected_category(), "work");
    assert_eq!(state.handle_key(Key::Char('h')), Action::Refresh);
    assert_eq!(state.selected_category(), "home");
    assert_eq!(state.file_index(), Some(0));
}

#[test]
fn up_and_down_move_in_the_focused_pane() {
    let mut state = loaded();
    state.set_focus(Focus::Files);
    assert_eq!(state.handle_key(Key::Down), Action::Nothing);
    assert_eq!(state.file_index(), Some(1));
    assert_eq!(state.handle_key(Key::Char('j')), Action::Nothing);
    assert_eq!(state.file_index(), Some(0));
    assert_eq!(state.handle_key(Key::Up), Action::Nothing);
    assert_eq!(state.file_index(), Some(1));
    assert_eq!(state.handle_key(Key::Char('k')), Action::Nothing);
    assert_eq!(state.file_index(), Some(0));
    state.set_focus(Focus::Subfolders);
    assert_eq!(state.handle_key(Key::Up), Action::Refresh);
    assert_eq!(state.selected_subfolder(), &Some("work".to_string()));
    state.set_focus(Focus::Categories);
    assert_eq!(state.handle_key(Key::Down), Action::Refresh);
    assert_eq!(state.selected_category(), "home");
}

#[test]
fn enter_opens_the_selected_note_from_the_file_pane() {
    let mut state = loaded();
    assert_eq!(state.handle_key(Key::Enter), Action::Nothing);
    state.set_focus(Focus::Files);
    assert_eq!(state.handle_key(Key::Enter), Action::Edit(strings(&["v", "b.md"])));
    assert_eq!(state.mode(), InputMode::Normal);
}

#[test]
fn capital_letters_begin_the_creating_modes() {
    let mut state = loaded();
    assert_eq!(state.handle_key(Key::Char('C')), Action::Nothing);
    assert_eq!(state.mode(), InputMode::NewCat);
    state.handle_key(Key::Esc);
    assert_eq!(state.mode(), InputMode::Normal);
    state.handle_key(Key::Char('F'));
    assert_eq!(state.mode(), InputMode::NewFolder);
    state.handle_key(Key::Esc);
    state.handle_key(Key::Char('N'));
    assert_eq!(state.mode(), InputMode::NewNote);
    state.handle_key(Key::Esc);
    assert_eq!(state.mode(), InputMode::Normal);
}

#[test]
fn a_typed_name_is_committed_by_enter() {
    let mut state = loaded();
    press(&mut state, "Ctrips");
    assert_eq!(state.input(), "trips");
    state.handle_key(Key::Backspace);
    assert_eq!(state.input(), "trip");
    let action = state.handle_key(Key::Enter);
    assert_eq!(action, Action::CreateDir(strings(&["v", "trip"])));
    assert_eq!(state.mode(), InputMode::Normal);
    assert_eq!(state.selected_category(), "trip");
}

#[test]
fn keys_that_navigate_are_text_while_a_name_is_typed() {
    let mut state = loaded();
    press(&mut state, "NqSjD/");
    assert_eq!(state.mode(), InputMode::NewNote);
    assert_eq!(state.input(), "qSjD/");
    assert!(!state.should_quit());
    assert_eq!(state.handle_key(Key::Tab), Action::Nothing);
    assert_eq!(state.handle_key(Key::Down), Action::Nothing);
    assert_eq!(state.handle_key(Key::Other), Action::Nothing);
    assert_eq!(state.focus(), Focus::Categories);
    assert_eq!(state.input(), "qSjD/");
    let action = state.handle_key(Key::Enter);
    assert_eq!(action, Action::WriteNote(strings(&["v", "qSjD/.md"]), "# New Note".to_string()));
}

#[test]
fn enter_on_an_empty_name_only_refreshes() {
    let mut state = loaded();
    state.handle_key(Key::Char('F'));
    assert_eq!(state.handle_key(Key::Enter), Action::Refresh);
    assert_eq!(state.mode(), InputMode::Normal);
    assert_eq!(state.selected_subfolder(), &None);
}

#[test]
fn the_name_typed_before_is_gone_when_typing_begins_again() {
    let mut state = loaded();
    press(&mut state, "Cabc");
    state.handle_key(Key::Esc);
    state.handle_key(Key::Char('N'));
    assert_eq!(state.input(), "");
}

#[test]
fn capital_d_asks_and_y_confirms() {
    let mut state = loaded();
    state.handle_key(Key::Right);
    assert_eq!(state.handle_key(Key::Char('D')), Action::Nothing);
    assert_eq!(state.mode(), InputMode::ConfirmDelete);
    let action = state.handle_key(Key::Char('y'));
    assert_eq!(action, Action::Remove(strings(&["v", "home"])));
    assert_eq!(state.mode(), InputMode::Normal);
    assert_eq!(state.selected_category(), "[Root]");
}

#[test]
fn any_other_key_declines_the_deletion() {
    let others = [
        Key::Char('n'),
        Key::Char('Y'),
        Key::Char('q'),
        Key::Enter,
        Key::Esc,
        Key::Tab,
        Key::Backspace,
        Key::Left,
        Key::Right,
        Key::Up,
        Key::Down,
        Key::Other,
    ];
    for key in others.iter() {
        let mut state = loaded();
        state.handle_key(Key::Right);
        state.handle_key(Key::Char('D'));
        let action = state.handle_key(*key);
        assert_eq!(action, Action::Refresh);
        assert_eq!(state.mode(), InputMode::Normal);
        assert_eq!(state.selected_category(), "home");
        assert_eq!(state.focus(), Focus::Categories);
        assert!(!state.should_quit());
    }
}

#[test]
fn a_slash_begins_a_search_and_enter_applies_it() {
    let mut state = loaded();
    assert_eq!(state.handle_key(Key::Char('/')), Action::Nothing);
    assert_eq!(state.mode(), InputMode::Searching);
    press(&mut state, "wo");
    let action = state.handle_key(Key::Enter);
    assert_eq!(action, Action::Refresh);
    assert_eq!(state.filter(), "wo");
    assert_eq!(state.mode(), InputMode::Normal);
    state.handle_key(Key::Char('/'));
    assert_eq!(state.handle_key(Key::Enter), Action::Refresh);
    assert_eq!(state.filter(), "");
}

#[test]
fn escape_gives_up_a_search() {
    let mut state = loaded();
    press(&mut state, "/abc");
    state.handle_key(Key::Backspace);
    assert_eq!(state.input(), "ab");
    assert_eq!(state.handle_key(Key::Esc), Action::Nothing);
    assert_eq!(state.mode(), InputMode::Normal);
    assert_eq!(state.filter(), "");
}

#[test]
fn keys_without_a_meaning_do_nothing() {
    let mut state = loaded();
    for key in [Key::Char('x'), Key::Char('c'), Key::Char('d'), Key::Esc, Key::Backspace, Key::Other].iter() {
        assert_eq!(state.handle_key(*key), Action::Nothing);
        assert_eq!(state.mode(), InputMode::Normal);
        assert_eq!(state.focus(), Focus::Categories);
        assert_eq!(state.selected_category(), "[Root]");
        assert_eq!(state.input(), "");
    }
}
