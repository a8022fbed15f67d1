//! From what a directory holds to the lists that are shown.

use vstd::prelude::*;
use crate::filter::matches_filter;
use crate::filter::name_matches;
use crate::names::hidden;
use crate::names::insert_name;
use crate::names::is_hidden;
use crate::names::lemma_sorted_names;
use crate::names::lemma_sorted_names_filter;
use crate::names::sorted_names;
use crate::names::strictly_ascending;

verus! {

/// The name of the entry that stands for the vault's root among the categories.
pub const ROOT: &'static str = "[Root]";

/// What a directory entry is.
#[derive(Clone, Copy, Debug, PartialEq, Eq, Structural)]
pub enum EntryKind {
    Directory,
    File,
    Other,
}

/// One entry of a directory, as it was read.
#[derive(Clone, Debug, PartialEq, Eq)]
pub struct Entry {
    /// The entry's name within its directory.
    pub name: String,
    pub kind: EntryKind,
    /// When it was last modified, in nanoseconds since the epoch; 0 where unknown.
    pub modified: u128,
}

/// A directory entry as contracts speak of it.
pub struct EntryView {
    pub name: Seq<char>,
    pub kind: EntryKind,
    pub modified: u128,
}

impl View for Entry {
    type V = EntryView;

    open spec fn view(&self) -> EntryView {
        EntryView { name: self.name@, kind: self.kind, modified: self.modified }
    }
}

impl DeepView for Entry {
    type V = EntryView;

    open spec fn deep_view(&self) -> EntryView {
        self@
    }
}

/// A note as it is listed.
#[derive(Clone, Debug, PartialEq, Eq)]
pub struct NoteFile {
    /// Where the note lies: the components of its path, the file's name last.
    pub path: Vec<String>,
    /// The name under which it is shown.
    pub name: String,
    /// When it was last modified, in nanoseconds since the epoch.
    pub modified: u128,
}

/// A listed note as contracts speak of it.
pub struct NoteView {
    pub path: Seq<Seq<char>>,
    pub name: Seq<char>,
    pub modified: u128,
}

impl DeepView for NoteFile {
    type V = NoteView;

    open spec fn deep_view(&self) -> NoteView {
        NoteView { path: self.path.deep_view(), name: self.name@, modified: self.modified }
    }
}

/// An entry is listed as a category if it is a directory, not hidden, passes
/// the filter, and does not bear the name kept for the root.
pub open spec fn is_category(e: EntryView, filter: Seq<char>) -> bool {
    &&& e.kind == EntryKind::Directory
    &&& !is_hidden(e.name)
    &&& e.name != ROOT@
    &&& name_matches(e.name, filter)
}

/// An entry is listed as a subfolder if it is a directory and not hidden.
pub open spec fn is_subfolder(e: EntryView) -> bool {
    e.kind == EntryKind::Directory && !is_hidden(e.name)
}

/// An entry is listed as a note if it is a regular file, not hidden, and
/// passes the filter.
pub open spec fn is_note(e: EntryView, filter: Seq<char>) -> bool {
    e.kind == EntryKind::File && !is_hidden(e.name) && name_matches(e.name, filter)
}

/// The test for the entries that are listed as notes under `filter`.
pub open spec fn note_test(filter: Seq<char>) -> spec_fn(EntryView) -> bool {
    |e: EntryView| is_note(e, filter)
}

/// The note that an entry of the directory `dir` is listed as.
pub open spec fn note_in(dir: Seq<Seq<char>>) -> spec_fn(EntryView) -> NoteView {
    |e: EntryView| NoteView { path: dir.push(e.name), name: e.name, modified: e.modified }
}

/// The test for the entries that are listed as categories under `filter`.
pub open spec fn category_test(filter: Seq<char>) -> spec_fn(EntryView) -> bool {
    |e: EntryView| is_category(e, filter)
}

/// The test for the entries that are listed as subfolders.
pub open spec fn subfolder_test() -> spec_fn(EntryView) -> bool {
    |e: EntryView| is_subfolder(e)
}

/// From an entry to its name.
pub open spec fn entry_name() -> spec_fn(EntryView) -> Seq<char> {
    |e: EntryView| e.name
}

/// The category list for a reading of the vault's root: the root's own entry
/// first, then the categories in ascending order, each once.
pub open spec fn category_names(entries: Seq<EntryView>, filter: Seq<char>) -> Seq<Seq<char>> {
    seq![ROOT@] + sorted_names(entries.filter(category_test(filter)).map_values(entry_name()))
}

/// The subfolder list for a reading of a category's directory: its
/// subfolders in ascending order, each once.
pub open spec fn subfolder_names(entries: Seq<EntryView>) -> Seq<Seq<char>> {
    sorted_names(entries.filter(subfolder_test()).map_values(entry_name()))
}

/// `notes` with `note` put in front of the notes at its end that are older:
/// in a list ordered from newest to oldest, behind every note that is as new
/// or newer.
pub open spec fn with_note(notes: Seq<NoteView>, note: NoteView) -> Seq<NoteView>
    decreases notes.len(),
{
    if notes.len() == 0 {
        seq![note]
    } else if notes.last().modified >= note.modified {
        notes.push(note)
    } else {
        with_note(notes.drop_last(), note).push(notes.last())
    }
}

/// The notes from the most recently modified to the oldest; notes of one
/// time stay in the order in which they were given.
pub open spec fn newest_first(notes: Seq<NoteView>) -> Seq<NoteView>
    decreases notes.len(),
{
    if notes.len() == 0 {
        Seq::empty()
    } else {
        with_note(newest_first(notes.drop_last()), notes.last())
    }
}

/// The file list for a reading of the directory `dir`.
pub open spec fn note_list(entries: Seq<EntryView>, filter: Seq<char>, dir: Seq<Seq<char>>) -> Seq<
    NoteView,
> {
    newest_first(entries.filter(note_test(filter)).map_values(note_in(dir)))
}

/// No note is followed by a newer one.
pub open spec fn newest_to_oldest(notes: Seq<NoteView>) -> bool {
    forall|i: int, j: int|
        0 <= i < j < notes.len() ==> (#[trigger] notes[i]).modified >= (#[trigger] notes[j]).modified
}

/// Where a note goes: in front of the notes at the end that are older.
proof fn lemma_with_note_at(notes: Seq<NoteView>, note: NoteView, p: int)
    requires
        0 <= p <= notes.len(),
        forall|j: int| p <= j < notes.len() ==> (#[trigger] notes[j]).modified < note.modified,
        p == 0 || notes[p - 1].modified >= note.modified,
    ensures
        with_note(notes, note) == notes.insert(p, note),
    decreases notes.len() - p,
{
    if p == notes.len() {
        assert(notes.insert(p, note) =~= notes.push(note));
    } else {
        let last = notes.last();
        assert(notes[notes.len() - 1].modified < note.modified);
        lemma_with_note_at(notes.drop_last(), note, p);
        assert(notes.insert(p, note) =~= notes.drop_last().insert(p, note).push(last));
    }
}

/// What the category list holds: the root's entry in front, and behind it,
/// in strictly ascending order, exactly the names of the entries that are
/// listed as categories.
pub proof fn lemma_category_names(entries: Seq<EntryView>, filter: Seq<char>)
    ensures
        category_names(entries, filter).len() > 0,
        category_names(entries, filter)[0] == ROOT@,
        strictly_ascending(category_names(entries, filter).skip(1)),
        !category_names(entries, filter).skip(1).contains(ROOT@),
        forall|n: Seq<char>| #[trigger]
            category_names(entries, filter).skip(1).contains(n) <==> exists|k: int|
                0 <= k < entries.len() && (#[trigger] entries[k]).name == n && is_category(
                    entries[k],
                    filter,
                ),
{
    let shown = entries.filter(category_test(filter));
    let names = shown.map_values(entry_name());
    lemma_sorted_names(names);
    lemma_shown_names(entries, category_test(filter));
    assert(category_names(entries, filter).skip(1) =~= sorted_names(names));
    assert forall|n: Seq<char>| #[trigger]
        category_names(entries, filter).skip(1).contains(n) <==> exists|k: int|
            0 <= k < entries.len() && (#[trigger] entries[k]).name == n && is_category(
                entries[k],
                filter,
            ) by {
        assert(sorted_names(names).contains(n) <==> names.contains(n));
    }
}

/// What the subfolder list holds: in strictly ascending order, exactly the
/// names of the entries that are listed as subfolders.
pub proof fn lemma_subfolder_names(entries: Seq<EntryView>)
    ensures
        strictly_ascending(subfolder_names(entries)),
        forall|n: Seq<char>| #[trigger]
            subfolder_names(entries).contains(n) <==> exists|k: int|
                0 <= k < entries.len() && (#[trigger] entries[k]).name == n && is_subfolder(entries[k]),
{
    let names = entries.filter(subfolder_test()).map_values(entry_name());
    lemma_sorted_names(names);
    lemma_shown_names(entries, subfolder_test());
    assert forall|n: Seq<char>| #[trigger]
        subfolder_names(entries).contains(n) <==> exists|k: int|
            0 <= k < entries.len() && (#[trigger] entries[k]).name == n && is_subfolder(entries[k]) by {
        assert(sorted_names(names).contains(n) <==> names.contains(n));
    }
}

/// What the file list holds: exactly the notes of the entries that are
/// listed as notes, as many as there are such entries, and none of them in
/// front of a newer one.
pub proof fn lemma_note_list(entries: Seq<EntryView>, filter: Seq<char>, dir: Seq<Seq<char>>)
    ensures
        newest_to_oldest(note_list(entries, filter, dir)),
        note_list(entries, filter, dir).to_multiset() == entries.filter(note_test(filter)).map_values(
            note_in(dir),
        ).to_multiset(),
        note_list(entries, filter, dir).len() == entries.filter(note_test(filter)).len(),
        forall|note: NoteView| #[trigger]
            note_list(entries, filter, dir).contains(note) <==> exists|k: int|
                0 <= k < entries.len() && is_note(#[trigger] entries[k], filter) && note_in(dir)(
                    entries[k],
                ) == note,
{
    let shown = entries.filter(note_test(filter));
    let notes = shown.map_values(note_in(dir));
    lemma_newest_first(notes);
    let listed = note_list(entries, filter, dir);
    assert forall|note: NoteView| #[trigger]
        listed.contains(note) <==> exists|k: int|
            0 <= k < entries.len() && is_note(#[trigger] entries[k], filter) && note_in(dir)(
                entries[k],
            ) == note by {
        vstd::seq_lib::to_multiset_contains(notes, note);
        vstd::seq_lib::to_multiset_contains(listed, note);
        assert(listed.contains(note) <==> notes.contains(note));
        if notes.contains(note) {
            let m = choose|m: int| 0 <= m < notes.len() && notes[m] == note;
            entries.lemma_filter_pred(note_test(filter), m);
            assert(shown.contains(shown[m]));
            entries.lemma_filter_contains_rev(note_test(filter), shown[m]);
            let k = choose|k: int| 0 <= k < entries.len() && entries[k] == shown[m];
            assert(is_note(entries[k], filter) && note_in(dir)(entries[k]) == note);
        }
        if exists|k: int|
            0 <= k < entries.len() && is_note(#[trigger] entries[k], filter) && note_in(dir)(
                entries[k],
            ) == note {
            let k = choose|k: int|
                0 <= k < entries.len() && is_note(#[trigger] entries[k], filter) && note_in(dir)(
                    entries[k],
                ) == note;
            entries.lemma_filter_contains(note_test(filter), k);
            let m = choose|m: int| 0 <= m < shown.len() && shown[m] == entries[k];
            assert(notes[m] == note);
        }
    }
}

/// Putting a note into a list ordered from newest to oldest keeps it so and
/// adds exactly that note.
pub proof fn lemma_with_note(notes: Seq<NoteView>, note: NoteView)
    requires
        newest_to_oldest(notes),
    ensures
        newest_to_oldest(with_note(notes, note)),
        with_note(notes, note).to_multiset() == notes.to_multiset().insert(note),
        with_note(notes, note).len() == notes.len() + 1,
    decreases notes.len(),
{
    broadcast use vstd::seq_lib::group_to_multiset_ensures;

    let out = with_note(notes, note);
    if notes.len() == 0 {
        assert(notes =~= Seq::empty());
        assert(out =~= Seq::<NoteView>::empty().push(note));
    } else if notes.last().modified >= note.modified {
        assert forall|i: int, j: int| 0 <= i < j < out.len() implies out[i].modified
            >= out[j].modified by {
            if j == notes.len() && i < notes.len() - 1 {
                assert(notes[i].modified >= notes[notes.len() - 1].modified);
            }
        }
    } else {
        let front = notes.drop_last();
        let inner = with_note(front, note);
        lemma_with_note(front, note);
        assert(notes =~= front.push(notes.last()));
        assert forall|i: int, j: int| 0 <= i < j < out.len() implies out[i].modified
            >= out[j].modified by {
            if j == inner.len() {
                assert(inner.to_multiset().count(inner[i]) > 0);
                if inner[i] != note {
                    assert(front.to_multiset().count(inner[i]) > 0);
                    assert(front.contains(inner[i]));
                    let k = choose|k: int| 0 <= k < front.len() && front[k] == inner[i];
                    assert(notes[k].modified >= notes[notes.len() - 1].modified);
                }
            }
        }
        assert(out.to_multiset() =~= notes.to_multiset().insert(note));
    }
}

/// `newest_first` lists what it was given, each note as often as it was
/// given, and none of them in front of a newer one.
pub proof fn lemma_newest_first(notes: Seq<NoteView>)
    ensures
        newest_to_oldest(newest_first(notes)),
        newest_first(notes).to_multiset() == notes.to_multiset(),
        newest_first(notes).len() == notes.len(),
    decreases notes.len(),
{
    broadcast use vstd::seq_lib::group_to_multiset_ensures;

    if notes.len() == 0 {
        assert(notes =~= Seq::empty());
    } else {
        let front = notes.drop_last();
        lemma_newest_first(front);
        lemma_with_note(newest_first(front), notes.last());
        assert(notes =~= front.push(notes.last()));
    }
}

/// The notes that were last modified at `time`.
pub open spec fn modified_at(time: u128) -> spec_fn(NoteView) -> bool {
    |note: NoteView| note.modified == time
}

/// A note is put behind the notes of its own time, and the notes of every
/// other time keep their order.
pub proof fn lemma_with_note_stable(notes: Seq<NoteView>, note: NoteView, time: u128)
    ensures
        with_note(notes, note).filter(modified_at(time)) == if note.modified == time {
            notes.filter(modified_at(time)).push(note)
        } else {
            notes.filter(modified_at(time))
        },
    decreases notes.len(),
{
    let at = modified_at(time);
    if notes.len() == 0 {
        assert(notes =~= Seq::empty());
        assert(with_note(notes, note) =~= notes.push(note));
        notes.lemma_filter_push(note, at);
    } else if notes.last().modified >= note.modified {
        notes.lemma_filter_push(note, at);
    } else {
        let front = notes.drop_last();
        let last = notes.last();
        lemma_with_note_stable(front, note, time);
        with_note(front, note).lemma_filter_push(last, at);
        assert(notes =~= front.push(last));
        front.lemma_filter_push(last, at);
    }
}

/// Sorting keeps the notes of one time in the order in which they were given.
pub proof fn lemma_newest_first_stable(notes: Seq<NoteView>, time: u128)
    ensures
        newest_first(notes).filter(modified_at(time)) == notes.filter(modified_at(time)),
    decreases notes.len(),
{
    if notes.len() == 0 {
    } else {
        let front = notes.drop_last();
        lemma_newest_first_stable(front, time);
        lemma_with_note_stable(newest_first(front), notes.last(), time);
        assert(notes =~= front.push(notes.last()));
        front.lemma_filter_push(notes.last(), modified_at(time));
    }
}

/// The names that pass a filter.
pub open spec fn matching_name(filter: Seq<char>) -> spec_fn(Seq<char>) -> bool {
    |name: Seq<char>| name_matches(name, filter)
}

/// The notes whose names pass a filter.
pub open spec fn matching_note(filter: Seq<char>) -> spec_fn(NoteView) -> bool {
    |note: NoteView| name_matches(note.name, filter)
}

/// Leaving notes out of a list ordered from newest to oldest and putting a
/// note in can be done in either order.
pub proof fn lemma_with_note_filter(
    notes: Seq<NoteView>,
    note: NoteView,
    keep: spec_fn(NoteView) -> bool,
)
    requires
        newest_to_oldest(notes),
    ensures
        with_note(notes, note).filter(keep) == if keep(note) {
            with_note(notes.filter(keep), note)
        } else {
            notes.filter(keep)
        },
    decreases notes.len(),
{
    if notes.len() == 0 {
        assert(notes =~= Seq::empty());
        assert(with_note(notes, note) =~= notes.push(note));
        notes.lemma_filter_push(note, keep);
        reveal(Seq::filter);
    } else {
        let front = notes.drop_last();
        let last = notes.last();
        assert(notes =~= front.push(last));
        front.lemma_filter_push(last, keep);
        let kept = notes.filter(keep);
        if last.modified >= note.modified {
            notes.lemma_filter_push(note, keep);
            if keep(note) && kept.len() > 0 {
                assert(kept.contains(kept.last()));
                notes.lemma_filter_contains_rev(keep, kept.last());
                let k = choose|k: int| 0 <= k < notes.len() && notes[k] == kept.last();
                if k < notes.len() - 1 {
                    assert(notes[k].modified >= notes[notes.len() - 1].modified);
                }
            }
        } else {
            lemma_with_note_filter(front, note, keep);
            with_note(front, note).lemma_filter_push(last, keep);
            if keep(note) && keep(last) {
                assert(kept.drop_last() =~= front.filter(keep));
            }
        }
    }
}

/// Leaving notes out and sorting can be done in either order.
pub proof fn lemma_newest_first_filter(notes: Seq<NoteView>, keep: spec_fn(NoteView) -> bool)
    ensures
        newest_first(notes).filter(keep) == newest_first(notes.filter(keep)),
    decreases notes.len(),
{
    if notes.len() == 0 {
        reveal(Seq::filter);
    } else {
        let front = notes.drop_last();
        let last = notes.last();
        assert(notes =~= front.push(last));
        lemma_newest_first_filter(front, keep);
        lemma_newest_first(front);
        lemma_with_note_filter(newest_first(front), last, keep);
        front.lemma_filter_push(last, keep);
        if keep(last) {
            assert(front.filter(keep).push(last).drop_last() =~= front.filter(keep));
        }
    }
}

/// The categories that a filter shows are those that are shown without it
/// and match it.
proof fn lemma_categories_shown(entries: Seq<EntryView>, filter: Seq<char>)
    ensures
        entries.filter(category_test(filter)).map_values(entry_name()) == entries.filter(
            category_test(Seq::empty()),
        ).map_values(entry_name()).filter(matching_name(filter)),
    decreases entries.len(),
{
    if entries.len() == 0 {
        reveal(Seq::filter);
        assert(entries.filter(category_test(filter)).map_values(entry_name()) =~= Seq::empty());
        assert(entries.filter(category_test(Seq::empty())).map_values(entry_name()) =~= Seq::empty());
    } else {
        let front = entries.drop_last();
        let last = entries.last();
        assert(entries =~= front.push(last));
        lemma_categories_shown(front, filter);
        front.lemma_filter_push(last, category_test(filter));
        front.lemma_filter_push(last, category_test(Seq::empty()));
        front.filter(category_test(filter)).lemma_push_map_commute(entry_name(), last);
        front.filter(category_test(Seq::empty())).lemma_push_map_commute(entry_name(), last);
        front.filter(category_test(Seq::empty())).map_values(entry_name()).lemma_filter_push(
            last.name,
            matching_name(filter),
        );
    }
}

/// The notes that a filter shows are those that are shown without it and
/// match it.
proof fn lemma_notes_shown(entries: Seq<EntryView>, filter: Seq<char>, dir: Seq<Seq<char>>)
    ensures
        entries.filter(note_test(filter)).map_values(note_in(dir)) == entries.filter(
            note_test(Seq::empty()),
        ).map_values(note_in(dir)).filter(matching_note(filter)),
    decreases entries.len(),
{
    if entries.len() == 0 {
        reveal(Seq::filter);
        assert(entries.filter(note_test(filter)).map_values(note_in(dir)) =~= Seq::empty());
        assert(entries.filter(note_test(Seq::empty())).map_values(note_in(dir)) =~= Seq::empty());
    } else {
        let front = entries.drop_last();
        let last = entries.last();
        assert(entries =~= front.push(last));
        lemma_notes_shown(front, filter, dir);
        front.lemma_filter_push(last, note_test(filter));
        front.lemma_filter_push(last, note_test(Seq::empty()));
        front.filter(note_test(filter)).lemma_push_map_commute(note_in(dir), last);
        front.filter(note_test(Seq::empty())).lemma_push_map_commute(note_in(dir), last);
        front.filter(note_test(Seq::empty())).map_values(note_in(dir)).lemma_filter_push(
            note_in(dir)(last),
            matching_note(filter),
        );
    }
}

/// A filter leaves out and does nothing else: the lists under a filter are
/// the lists without it, less what does not match, in the same order. The
/// root's entry stays whatever the filter.
pub proof fn lemma_filter_leaves_out(entries: Seq<EntryView>, filter: Seq<char>, dir: Seq<Seq<char>>)
    ensures
        category_names(entries, filter) == seq![ROOT@] + category_names(entries, Seq::empty()).skip(
            1,
        ).filter(matching_name(filter)),
        note_list(entries, filter, dir) == note_list(entries, Seq::empty(), dir).filter(
            matching_note(filter),
        ),
{
    let all = entries.filter(category_test(Seq::empty())).map_values(entry_name());
    lemma_categories_shown(entries, filter);
    lemma_sorted_names_filter(all, matching_name(filter));
    assert(category_names(entries, Seq::empty()).skip(1) =~= sorted_names(all));
    let notes = entries.filter(note_test(Seq::empty())).map_values(note_in(dir));
    lemma_notes_shown(entries, filter, dir);
    lemma_newest_first_filter(notes, matching_note(filter));
}

/// The names of the entries that pass a test are the names of the entries
/// that pass it.
proof fn lemma_shown_names(entries: Seq<EntryView>, test: spec_fn(EntryView) -> bool)
    ensures
        forall|n: Seq<char>| #[trigger]
            entries.filter(test).map_values(entry_name()).contains(n) <==> exists|k: int|
                0 <= k < entries.len() && (#[trigger] entries[k]).name == n && test(entries[k]),
{
    let shown = entries.filter(test);
    let names = shown.map_values(entry_name());
    assert forall|n: Seq<char>| #[trigger]
        names.contains(n) <==> exists|k: int|
            0 <= k < entries.len() && (#[trigger] entries[k]).name == n && test(entries[k]) by {
        if names.contains(n) {
            let m = choose|m: int| 0 <= m < names.len() && names[m] == n;
            entries.lemma_filter_pred(test, m);
            assert(shown.contains(shown[m]));
            entries.lemma_filter_contains_rev(test, shown[m]);
            let k = choose|k: int| 0 <= k < entries.len() && entries[k] == shown[m];
            assert(entries[k].name == n && test(entries[k]));
        }
        if exists|k: int| 0 <= k < entries.len() && (#[trigger] entries[k]).name == n && test(entries[k]) {
            let k = choose|k: int|
                0 <= k < entries.len() && (#[trigger] entries[k]).name == n && test(entries[k]);
            entries.lemma_filter_contains(test, k);
            let m = choose|m: int| 0 <= m < shown.len() && shown[m] == entries[k];
            assert(names[m] == n);
        }
    }
}

/// What one more entry adds to the names that pass a test.
proof fn lemma_names_step(entries: Seq<EntryView>, test: spec_fn(EntryView) -> bool, i: int)
    requires
        0 <= i < entries.len(),
    ensures
        entries.take(i + 1).filter(test).map_values(entry_name()) == if test(entries[i]) {
            entries.take(i).filter(test).map_values(entry_name()).push(entries[i].name)
        } else {
            entries.take(i).filter(test).map_values(entry_name())
        },
{
    let front = entries.take(i);
    assert(entries.take(i + 1) =~= front.push(entries[i]));
    front.lemma_filter_push(entries[i], test);
    if test(entries[i]) {
        front.filter(test).lemma_push_map_commute(entry_name(), entries[i]);
    }
}

/// Builds the category list from a reading of the vault's root.
pub fn category_listing(entries: &Vec<Entry>, filter: &str) -> (names: Vec<String>)
    ensures
        names.deep_view() == category_names(entries.deep_view(), filter@),
{
    let root = ROOT.to_owned();
    let mut sorted: Vec<String> = Vec::new();
    let ghost all = entries.deep_view();
    let ghost test = category_test(filter@);
    proof {
        reveal(Seq::filter);
        assert(all.take(0).filter(test).map_values(entry_name()) =~= Seq::empty());
        assert(sorted.deep_view() =~= Seq::empty());
    }
    let mut i: usize = 0;
    while i < entries.len()
        invariant
            i <= entries.len(),
            all == entries.deep_view(),
            test == category_test(filter@),
            root@ == ROOT@,
            strictly_ascending(sorted.deep_view()),
            sorted.deep_view() == sorted_names(all.take(i as int).filter(test).map_values(entry_name())),
        decreases entries.len() - i,
    {
        let e = &entries[i];
        proof {
            lemma_names_step(all, test, i as int);
            assert(all[i as int] == e@);
        }
        if e.kind == EntryKind::Directory && !hidden(e.name.as_str()) && !(e.name == root)
            && matches_filter(e.name.as_str(), filter) {
            assert(all.take(i + 1).filter(test).map_values(entry_name()).drop_last()
                =~= all.take(i as int).filter(test).map_values(entry_name()));
            insert_name(&mut sorted, e.name.clone());
        }
        i += 1;
    }
    let mut names: Vec<String> = Vec::new();
    names.push(root);
    names.append(&mut sorted);
    proof {
        assert(all.take(entries.len() as int) =~= all);
        assert(names.deep_view() =~= category_names(all, filter@));
    }
    names
}

/// Builds the subfolder list from a reading of a category's directory.
pub fn subfolder_listing(entries: &Vec<Entry>) -> (names: Vec<String>)
    ensures
        names.deep_view() == subfolder_names(entries.deep_view()),
        strictly_ascending(names.deep_view()),
{
    let mut sorted: Vec<String> = Vec::new();
    let ghost all = entries.deep_view();
    let ghost test = subfolder_test();
    proof {
        reveal(Seq::filter);
        assert(all.take(0).filter(test).map_values(entry_name()) =~= Seq::empty());
        assert(sorted.deep_view() =~= Seq::empty());
    }
    let mut i: usize = 0;
    while i < entries.len()
        invariant
            i <= entries.len(),
            all == entries.deep_view(),
            test == subfolder_test(),
            strictly_ascending(sorted.deep_view()),
            sorted.deep_view() == sorted_names(all.take(i as int).filter(test).map_values(entry_name())),
        decreases entries.len() - i,
    {
        let e = &entries[i];
        proof {
            lemma_names_step(all, test, i as int);
            assert(all[i as int] == e@);
        }
        if e.kind == EntryKind::Directory && !hidden(e.name.as_str()) {
            assert(all.take(i + 1).filter(test).map_values(entry_name()).drop_last()
                =~= all.take(i as int).filter(test).map_values(entry_name()));
            insert_name(&mut sorted, e.name.clone());
        }
        i += 1;
    }
    proof {
        assert(all.take(entries.len() as int) =~= all);
    }
    sorted
}

/// Puts `note` behind every note that is as new or newer.
fn insert_note(notes: &mut Vec<NoteFile>, note: NoteFile)
    ensures
        final(notes).deep_view() == with_note(old(notes).deep_view(), note.deep_view()),
{
    let ghost before = notes.deep_view();
    let mut p: usize = notes.len();
    while p > 0 && notes[p - 1].modified < note.modified
        invariant
            p <= notes.len(),
            notes.deep_view() == before,
            forall|j: int| p <= j < notes.len() ==> (#[trigger] before[j]).modified < note.modified,
        decreases p,
    {
        p -= 1;
    }
    proof {
        lemma_with_note_at(before, note.deep_view(), p as int);
    }
    let ghost added = note.deep_view();
    notes.insert(p, note);
    assert(notes.deep_view() =~= before.insert(p as int, added));
}

/// What one more entry adds to the notes that pass a test.
proof fn lemma_notes_step(
    entries: Seq<EntryView>,
    test: spec_fn(EntryView) -> bool,
    dir: Seq<Seq<char>>,
    i: int,
)
    requires
        0 <= i < entries.len(),
    ensures
        entries.take(i + 1).filter(test).map_values(note_in(dir)) == if test(entries[i]) {
            entries.take(i).filter(test).map_values(note_in(dir)).push(note_in(dir)(entries[i]))
        } else {
            entries.take(i).filter(test).map_values(note_in(dir))
        },
{
    let front = entries.take(i);
    assert(entries.take(i + 1) =~= front.push(entries[i]));
    front.lemma_filter_push(entries[i], test);
    if test(entries[i]) {
        front.filter(test).lemma_push_map_commute(note_in(dir), entries[i]);
    }
}

/// Builds the file list from a reading of the directory `dir`.
pub fn note_listing(entries: &Vec<Entry>, filter: &str, dir: &Vec<String>) -> (notes: Vec<NoteFile>)
    ensures
        notes.deep_view() == note_list(entries.deep_view(), filter@, dir.deep_view()),
{
    let mut notes: Vec<NoteFile> = Vec::new();
    let ghost all = entries.deep_view();
    let ghost test = note_test(filter@);
    let ghost place = dir.deep_view();
    proof {
        reveal(Seq::filter);
        assert(all.take(0).filter(test).map_values(note_in(place)) =~= Seq::empty());
        assert(notes.deep_view() =~= Seq::empty());
    }
    let mut i: usize = 0;
    while i < entries.len()
        invariant
            i <= entries.len(),
            all == entries.deep_view(),
            test == note_test(filter@),
            place == dir.deep_view(),
            notes.deep_view() == newest_first(all.take(i as int).filter(test).map_values(note_in(place))),
        decreases entries.len() - i,
    {
        let e = &entries[i];
        proof {
            lemma_notes_step(all, test, place, i as int);
            assert(all[i as int] == e@);
        }
        if e.kind == EntryKind::File && !hidden(e.name.as_str()) && matches_filter(
            e.name.as_str(),
            filter,
        ) {
            let mut path = dir.clone();
            assert(path.deep_view() =~= place);
            path.push(e.name.clone());
            assert(path.deep_view() =~= place.push(e.name@));
            let note = NoteFile { path, name: e.name.clone(), modified: e.modified };
            assert(all.take(i + 1).filter(test).map_values(note_in(place)).drop_last()
                =~= all.take(i as int).filter(test).map_values(note_in(place)));
            insert_note(&mut notes, note);
        }
        i += 1;
    }
    proof {
        assert(all.take(entries.len() as int) =~= all);
    }
    notes
}

} // verus!
