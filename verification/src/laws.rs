//! What holds of the browser whatever the vault holds and whatever is typed.

use vstd::prelude::*;
use crate::action::ActionView;
use crate::cursor::first_at;
use crate::cursor::lemma_position;
use crate::cursor::lemma_position_listed;
use crate::cursor::lemma_position_of_item;
use crate::cursor::stepped;
use crate::cursor::Direction;
use crate::filter::name_matches;
use crate::listing::category_names;
use crate::listing::is_note;
use crate::listing::lemma_category_names;
use crate::listing::lemma_note_list;
use crate::listing::lemma_subfolder_names;
use crate::listing::note_in;
use crate::listing::note_list;
use crate::listing::subfolder_names;
use crate::listing::EntryView;
use crate::listing::NoteView;
use crate::listing::ROOT;
use crate::model::CreateKind;
use crate::model::Focus;
use crate::model::InputMode;
use crate::model::Key;
use crate::model::VaultView;
use crate::model::NOTE_HEADING;
use crate::model::NOTE_SUFFIX;
use crate::names::lemma_ascending_distinct;

verus! {

/// The categories of a state are pairwise different.
pub proof fn lemma_categories_distinct(v: VaultView)
    requires
        v.wf(),
    ensures
        v.categories.no_duplicates(),
{
    let tail = v.categories.skip(1);
    lemma_ascending_distinct(tail);
    assert forall|i: int, j: int|
        0 <= i < v.categories.len() && 0 <= j < v.categories.len() && i != j implies v.categories[i]
        != v.categories[j] by {
        if i > 0 && j > 0 {
            assert(tail[i - 1] == v.categories[i] && tail[j - 1] == v.categories[j]);
        } else if i > 0 {
            assert(tail[i - 1] == v.categories[i]);
        } else {
            assert(tail[j - 1] == v.categories[j]);
        }
    }
}

/// In every state each cursor stands at an item of its list or nowhere: the
/// category cursor always at a category, the subfolder cursor at a subfolder
/// or nowhere, the file cursor at a file, and nowhere only where there is
/// none.
pub proof fn lemma_no_cursor_dangles(v: VaultView)
    requires
        v.wf(),
    ensures
        0 <= v.category_index() < v.categories.len(),
        v.subfolder_index() matches Some(i) ==> 0 <= i < v.subfolders.len(),
        match v.file_index {
            Some(i) => i < v.files.len(),
            None => v.files.len() == 0,
        },
{
    lemma_position_listed(v.categories, v.selected_cat);
    match v.selected_sub {
        Some(name) => {
            lemma_position_listed(v.subfolders, name);
        },
        None => {},
    }
}

/// Every reading keeps a state well formed.
pub proof fn lemma_readings_keep_wf(v: VaultView, entries: Seq<EntryView>)
    requires
        v.wf(),
    ensures
        v.with_categories(entries).wf(),
        v.with_subfolders(entries).wf(),
        v.with_files(entries).wf(),
{
    lemma_category_names(entries, v.filter);
    lemma_subfolder_names(entries);
}

/// After a refresh no cursor dangles. The category cursor points at the
/// selected category. The subfolder cursor points at the selected subfolder,
/// or none is selected. The file cursor points into the file list, and
/// stands nowhere only where there is no file.
pub proof fn lemma_refresh_cursors(
    v: VaultView,
    root: Seq<EntryView>,
    category: Seq<EntryView>,
    files: Seq<EntryView>,
)
    requires
        v.wf(),
    ensures
        ({
            let r = v.refreshed(root, category, files);
            &&& r.wf()
            &&& 0 <= r.category_index() < r.categories.len()
            &&& r.categories[r.category_index()] == r.selected_cat
            &&& match r.subfolder_index() {
                Some(i) => 0 <= i < r.subfolders.len() && r.selected_sub == Some(r.subfolders[i]),
                None => r.selected_sub is None,
            }
            &&& match r.file_index {
                Some(i) => i < r.files.len(),
                None => r.files.len() == 0,
            }
        }),
{
    let a = v.with_categories(root);
    let b = a.with_subfolders(category);
    let r = b.with_files(files);
    lemma_readings_keep_wf(v, root);
    lemma_readings_keep_wf(a, category);
    lemma_readings_keep_wf(b, files);
    lemma_position_listed(r.categories, r.selected_cat);
    assert(a.categories[0] == ROOT@);
    assert(r.categories.contains(r.selected_cat));
    match r.selected_sub {
        Some(name) => {
            lemma_position_listed(r.subfolders, name);
            if !subfolder_names(category).contains(name) {
                assert(r.subfolders[0] == name);
            }
        },
        None => {},
    }
}

/// Refreshing again while the vault has not changed changes nothing.
pub proof fn lemma_refresh_settles(
    v: VaultView,
    root: Seq<EntryView>,
    category: Seq<EntryView>,
    files: Seq<EntryView>,
)
    requires
        v.wf(),
    ensures
        v.refreshed(root, category, files).refreshed(root, category, files) == v.refreshed(
            root,
            category,
            files,
        ),
{
    let r = v.refreshed(root, category, files);
    lemma_refresh_cursors(v, root, category, files);
    let a = r.with_categories(root);
    assert(r.categories.contains(r.selected_cat));
    assert(a == r);
    let b = a.with_subfolders(category);
    match r.selected_sub {
        Some(name) => {
            lemma_position_listed(r.subfolders, name);
        },
        None => {},
    }
    assert(b == r);
}

/// What a refresh lists follows from the vault, the filter and the selected
/// names alone: states that agree in these list the same after reading the
/// same, whatever they listed before. So a vault that is again as it was,
/// under the selection that it was under, is listed as it was.
pub proof fn lemma_lists_follow_the_vault(
    v: VaultView,
    w: VaultView,
    root: Seq<EntryView>,
    category: Seq<EntryView>,
    files: Seq<EntryView>,
)
    requires
        v.root == w.root,
        v.filter == w.filter,
        v.selected_cat == w.selected_cat,
        v.selected_sub == w.selected_sub,
    ensures
        v.refreshed(root, category, files).categories == w.refreshed(root, category, files).categories,
        v.refreshed(root, category, files).subfolders == w.refreshed(root, category, files).subfolders,
        v.refreshed(root, category, files).files == w.refreshed(root, category, files).files,
        v.refreshed(root, category, files).selected_cat == w.refreshed(
            root,
            category,
            files,
        ).selected_cat,
        v.refreshed(root, category, files).selected_sub == w.refreshed(
            root,
            category,
            files,
        ).selected_sub,
{
}

/// What a step does to the cursor of its pane: it goes one step, around the
/// ends of the list, and stays within the list. A cursor that stands nowhere
/// steps as from the first item.
pub proof fn lemma_move_wraps(v: VaultView, pane: Focus, dir: Direction)
    requires
        v.wf(),
    ensures
        v.moved_in(pane, dir).wf(),
        pane == Focus::Categories ==> {
            &&& v.moved_in(pane, dir).category_index() == stepped(
                v.category_index(),
                v.categories.len() as int,
                dir,
            )
            &&& 0 <= v.moved_in(pane, dir).category_index() < v.categories.len()
        },
        pane == Focus::Subfolders && v.subfolders.len() > 0 ==> {
            let from = match v.subfolder_index() {
                Some(i) => i,
                None => 0,
            };
            &&& v.moved_in(pane, dir).subfolder_index() == Some(
                stepped(from, v.subfolders.len() as int, dir),
            )
            &&& 0 <= stepped(from, v.subfolders.len() as int, dir) < v.subfolders.len()
        },
        pane == Focus::Files && v.files.len() > 0 ==> {
            let from = match v.file_index {
                Some(i) => i as int,
                None => 0,
            };
            &&& v.moved_in(pane, dir).file_index == Some(
                stepped(from, v.files.len() as int, dir) as usize,
            )
            &&& 0 <= stepped(from, v.files.len() as int, dir) < v.files.len()
        },
        (pane == Focus::Subfolders && v.subfolders.len() == 0) || (pane == Focus::Files
            && v.files.len() == 0) ==> v.moved_in(pane, dir) == v,
{
    match pane {
        Focus::Categories => {
            lemma_position_listed(v.categories, v.selected_cat);
            let to = stepped(v.category_index(), v.categories.len() as int, dir);
            lemma_categories_distinct(v);
            lemma_position_of_item(v.categories, to);
        },
        Focus::Subfolders => {
            if v.subfolders.len() > 0 {
                match v.selected_sub {
                    Some(name) => {
                        lemma_position_listed(v.subfolders, name);
                    },
                    None => {},
                }
                let from = match v.subfolder_index() {
                    Some(i) => i,
                    None => 0,
                };
                let to = stepped(from, v.subfolders.len() as int, dir);
                lemma_ascending_distinct(v.subfolders);
                lemma_position_of_item(v.subfolders, to);
            }
        },
        Focus::Files => {},
    }
}

/// No key press makes a dangling cursor: every state that a key leads to is
/// well formed, as every state is that a reading leads to.
pub proof fn lemma_keys_keep_wf(v: VaultView, key: Key)
    requires
        v.wf(),
    ensures
        v.after_key(key).wf(),
{
    lemma_move_wraps(v, Focus::Categories, Direction::Forward);
    lemma_move_wraps(v, Focus::Categories, Direction::Backward);
    lemma_move_wraps(v, v.focus, Direction::Forward);
    lemma_move_wraps(v, v.focus, Direction::Backward);
}

/// Under a filter only names that match it are listed, but for the root's
/// entry, which leads the categories under every filter.
pub proof fn lemma_filter_narrows(
    entries: Seq<EntryView>,
    filter: Seq<char>,
    dir: Seq<Seq<char>>,
)
    ensures
        forall|i: int|
            1 <= i < category_names(entries, filter).len() ==> name_matches(
                #[trigger] category_names(entries, filter)[i],
                filter,
            ),
        forall|i: int|
            0 <= i < note_list(entries, filter, dir).len() ==> name_matches(
                (#[trigger] note_list(entries, filter, dir)[i]).name,
                filter,
            ),
{
    lemma_category_names(entries, filter);
    lemma_note_list(entries, filter, dir);
    let listed = category_names(entries, filter);
    assert forall|i: int| 1 <= i < listed.len() implies name_matches(#[trigger] listed[i], filter) by {
        assert(listed.skip(1)[i - 1] == listed[i]);
        assert(listed.skip(1).contains(listed[i]));
    }
    let notes = note_list(entries, filter, dir);
    assert forall|i: int| 0 <= i < notes.len() implies name_matches(
        (#[trigger] notes[i]).name,
        filter,
    ) by {
        assert(notes.contains(notes[i]));
        let k = choose|k: int|
            0 <= k < entries.len() && is_note(#[trigger] entries[k], filter)
                && note_in(dir)(entries[k]) == notes[i];
        assert(notes[i].name == entries[k].name);
    }
}

/// Lifting a filter restores the lists: what a reading lists depends on the
/// reading, the filter in force and the directory read, and on nothing that
/// was listed or filtered before.
pub proof fn lemma_filter_lifted(
    v: VaultView,
    query: Seq<char>,
    filtered: Seq<EntryView>,
    entries: Seq<EntryView>,
)
    requires
        v.filter.len() == 0,
    ensures
        ({
            let narrowed = (VaultView { filter: query, ..v }).with_categories(filtered);
            let lifted = (VaultView { filter: Seq::empty(), ..narrowed }).with_categories(entries);
            lifted.categories == v.with_categories(entries).categories
        }),
        ({
            let narrowed = (VaultView { filter: query, ..v }).with_subfolders(filtered);
            let lifted = (VaultView { filter: Seq::empty(), ..narrowed }).with_subfolders(entries);
            lifted.subfolders == v.with_subfolders(entries).subfolders
        }),
        ({
            let narrowed = (VaultView { filter: query, ..v }).with_files(filtered);
            let lifted = (VaultView { filter: Seq::empty(), ..narrowed }).with_files(entries);
            lifted.files == v.with_files(entries).files
        }),
{
    assert(v.filter =~= Seq::empty());
}

/// Deleting a category leaves the selection at the root's entry, before and
/// after the refresh that follows; and the root's entry itself is never
/// removed.
pub proof fn lemma_deleted_category_gives_root(v: VaultView, entries: Seq<EntryView>)
    requires
        v.wf(),
        v.mode == InputMode::ConfirmDelete,
        v.focus == Focus::Categories,
    ensures
        v.confirmed_delete(true).selected_cat == ROOT@,
        v.confirmed_delete(true).category_index() == 0,
        v.confirmed_delete(true).with_categories(entries).selected_cat == ROOT@,
        v.confirmed_delete(true).with_categories(entries).category_index() == 0,
        v.selected_cat == ROOT@ ==> v.delete_action(true) == ActionView::Refresh,
        v.selected_cat != ROOT@ ==> v.delete_action(true) == ActionView::Remove(
            v.root.push(v.selected_cat),
        ),
{
    let d = v.confirmed_delete(true);
    assert(first_at(d.categories, ROOT@, 0));
    lemma_position(d.categories, ROOT@, 0);
    let r = d.with_categories(entries);
    lemma_category_names(entries, d.filter);
    assert(r.categories[0] == ROOT@);
    assert(first_at(r.categories, ROOT@, 0));
    lemma_position(r.categories, ROOT@, 0);
}

/// A deletion that is not confirmed changes nothing: after any answer but
/// yes the state is what it was before the deletion was asked for, and
/// nothing is removed, only a refresh asked for.
pub proof fn lemma_declined_delete(v: VaultView, key: Key)
    requires
        v.mode == InputMode::Normal,
    ensures
        v.begun_delete().confirmed_delete(false) == v,
        v.begun_delete().delete_action(false) == ActionView::Refresh,
        v.after_key(Key::Char('D')) == v.begun_delete(),
        key != Key::Char('y') ==> v.begun_delete().after_key(key) == v,
        key != Key::Char('y') ==> v.begun_delete().key_action(key) == ActionView::Refresh,
{
}

/// After a refresh, a deletion that is not confirmed and the refresh that
/// follows it leave every list and every selection as they were, as long as
/// the vault itself has not changed.
pub proof fn lemma_declined_delete_keeps_lists(
    v: VaultView,
    key: Key,
    root: Seq<EntryView>,
    category: Seq<EntryView>,
    files: Seq<EntryView>,
)
    requires
        v.wf(),
        v.mode == InputMode::Normal,
        key != Key::Char('y'),
    ensures
        ({
            let settled = v.refreshed(root, category, files);
            &&& settled.begun_delete().confirmed_delete(false).refreshed(root, category, files)
                == settled
            &&& settled.after_key(Key::Char('D')).after_key(key).refreshed(root, category, files)
                == settled
        }),
{
    lemma_refresh_settles(v, root, category, files);
    lemma_declined_delete(v.refreshed(root, category, files), key);
}

/// The focus comes back to a pane after three steps, and to no pane sooner.
pub proof fn lemma_focus_cycles(pane: Focus)
    ensures
        pane.spec_next().spec_next().spec_next() == pane,
        pane.spec_next() != pane,
        pane.spec_next().spec_next() != pane,
{
}

/// Every mode can be reached from the normal mode by one key, and left for
/// the normal mode by the escape key.
pub proof fn lemma_modes_reached_and_left(v: VaultView)
    ensures
        v.mode == InputMode::Normal ==> {
            &&& v.after_key(Key::Char('C')).mode == InputMode::NewCat
            &&& v.after_key(Key::Char('F')).mode == InputMode::NewFolder
            &&& v.after_key(Key::Char('N')).mode == InputMode::NewNote
            &&& v.after_key(Key::Char('/')).mode == InputMode::Searching
            &&& v.after_key(Key::Char('D')).mode == InputMode::ConfirmDelete
        },
        v.after_key(Key::Esc).mode == InputMode::Normal,
        v.after_key(Key::Enter).mode == InputMode::Normal,
{
}

/// Only the normal mode takes navigation: in every other mode the lists,
/// the selections and the focus are what they were after any key that
/// neither commits nor answers.
pub proof fn lemma_typing_keeps_selection(v: VaultView, key: Key)
    requires
        v.mode.spec_takes_text(),
        key != Key::Enter,
    ensures
        v.after_key(key) == (VaultView {
            mode: v.after_key(key).mode,
            input: v.after_key(key).input,
            ..v
        }),
        v.key_action(key) == ActionView::Nothing,
{
}

/// A new category or subfolder is selected by its name once it is committed,
/// and a new note is written into the directory whose notes are listed.
pub proof fn lemma_created_is_selected(v: VaultView, kind: CreateKind, name: Seq<char>)
    requires
        v.mode == InputMode::Normal,
        name.len() > 0,
    ensures
        kind == CreateKind::Category ==> v.begun_create(kind).committed_create(name).selected_cat
            == name,
        kind == CreateKind::Subfolder ==> v.begun_create(kind).committed_create(name).selected_sub
            == Some(name),
        kind == CreateKind::Note ==> v.begun_create(kind).committed_create(name) == (VaultView {
            input: Seq::empty(),
            ..v
        }),
        v.begun_create(kind).committed_create(name).mode == InputMode::Normal,
        v.begun_create(kind).create_action(name).refreshes(),
{
}

/// A new note is written with the heading into the directory whose notes
/// are listed, under its name with the suffix; and once that directory holds
/// the file, the next reading lists it there, unless its name hides it or
/// the filter leaves it out.
pub proof fn lemma_new_note_is_listed(
    v: VaultView,
    name: Seq<char>,
    entries: Seq<EntryView>,
    k: int,
)
    requires
        v.mode == InputMode::NewNote,
        name.len() > 0,
        0 <= k < entries.len(),
        entries[k].name == name + NOTE_SUFFIX@,
        is_note(entries[k], v.filter),
    ensures
        v.create_action(name) == ActionView::WriteNote(
            v.files_dir().push(name + NOTE_SUFFIX@),
            NOTE_HEADING@,
        ),
        v.subfolder_index() is None && v.selected_cat != ROOT@ ==> v.files_dir() == v.root.push(
            v.selected_cat,
        ),
        v.committed_create(name).with_files(entries).files.contains(
            (NoteView {
                path: v.files_dir().push(name + NOTE_SUFFIX@),
                name: name + NOTE_SUFFIX@,
                modified: entries[k].modified,
            }),
        ),
{
    let after = v.committed_create(name);
    assert(after.files_dir() == v.files_dir());
    lemma_note_list(entries, v.filter, v.files_dir());
    assert(note_in(v.files_dir())(entries[k]) == (NoteView {
        path: v.files_dir().push(name + NOTE_SUFFIX@),
        name: name + NOTE_SUFFIX@,
        modified: entries[k].modified,
    }));
}

} // verus!
