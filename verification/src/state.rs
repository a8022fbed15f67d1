//! The browser's state and the operations that user input causes.

use vstd::prelude::*;
use crate::action::Action;
use crate::action::ActionView;
use crate::cursor::find_name;
use crate::cursor::lemma_position_listed;
use crate::cursor::step;
use crate::cursor::Direction;
use crate::listing::category_listing;
use crate::listing::lemma_category_names;
use crate::listing::note_listing;
use crate::listing::subfolder_listing;
use crate::listing::Entry;
use crate::listing::EntryView;
use crate::listing::NoteFile;
use crate::listing::ROOT;
use crate::model::CreateKind;
use crate::model::Focus;
use crate::model::InputMode;
use crate::model::VaultView;
use crate::model::NEVER_SYNCED;
use crate::model::NOTE_HEADING;
use crate::model::NOTE_SUFFIX;
use crate::text::pop_char;
use crate::text::push_char;

verus! {

/// Reading the directory `dir` with `read` can give `entries`.
pub open spec fn reads<F: Fn(&Vec<String>) -> Vec<Entry>>(
    read: F,
    dir: Seq<Seq<char>>,
    entries: Seq<EntryView>,
) -> bool {
    exists|path: Vec<String>, listing: Vec<Entry>|
        path.deep_view() == dir && listing.deep_view() == entries && call_ensures(
            read,
            (&path,),
            listing,
        )
}

/// The notes that are listed, and the cursor in them.
struct FileList {
    items: Vec<NoteFile>,
    index: Option<usize>,
}

/// The state of the browser: the lists that mirror the vault, the
/// selections in them, the filter, and the mode of interaction.
pub struct VaultState {
    root: Vec<String>,
    categories: Vec<String>,
    subfolders: Vec<String>,
    notes: FileList,
    selected_cat: String,
    selected_sub: Option<String>,
    focus: Focus,
    mode: InputMode,
    input: String,
    filter: String,
    should_quit: bool,
    last_sync: String,
}

impl View for VaultState {
    type V = VaultView;

    closed spec fn view(&self) -> VaultView {
        VaultView {
            root: self.root.deep_view(),
            categories: self.categories.deep_view(),
            subfolders: self.subfolders.deep_view(),
            files: self.notes.items.deep_view(),
            selected_cat: self.selected_cat@,
            selected_sub: self.selected_sub.deep_view(),
            file_index: self.notes.index,
            focus: self.focus,
            mode: self.mode,
            input: self.input@,
            filter: self.filter@,
            should_quit: self.should_quit,
            last_sync: self.last_sync@,
        }
    }
}

impl VaultState {
    /// Every state is well formed.
    #[verifier::type_invariant]
    spec fn inv(self) -> bool {
        self@.wf()
    }

    /// A state for the vault at `root`, before anything was read: only the
    /// root's own entry is listed, and it is selected.
    pub fn new(root: Vec<String>) -> (s: VaultState)
        ensures
            s@ == (VaultView {
                root: root.deep_view(),
                categories: seq![ROOT@],
                subfolders: Seq::empty(),
                files: Seq::empty(),
                selected_cat: ROOT@,
                selected_sub: None,
                file_index: None,
                focus: Focus::Categories,
                mode: InputMode::Normal,
                input: Seq::empty(),
                filter: Seq::empty(),
                should_quit: false,
                last_sync: NEVER_SYNCED@,
            }),
            s@.wf(),
    {
        let mut categories: Vec<String> = Vec::new();
        categories.push(ROOT.to_owned());
        let s = VaultState {
            root,
            categories,
            subfolders: Vec::new(),
            notes: FileList { items: Vec::new(), index: None },
            selected_cat: ROOT.to_owned(),
            selected_sub: None,
            focus: Focus::Categories,
            mode: InputMode::Normal,
            input: String::new(),
            filter: String::new(),
            should_quit: false,
            last_sync: NEVER_SYNCED.to_owned(),
        };
        proof {
            assert(s@.categories =~= seq![ROOT@]);
            assert(s@.subfolders =~= Seq::empty());
            assert(s@.files =~= Seq::empty());
        }
        s
    }

    /// States what holds of every state.
    pub fn well_formed(&self)
        ensures
            self@.wf(),
    {
        proof {
            use_type_invariant(self);
        }
    }

    /// The components of the path of the vault's root.
    pub fn root(&self) -> (r: &Vec<String>)
        ensures
            r.deep_view() == self@.root,
    {
        &self.root
    }

    /// The category list, the root's entry first.
    pub fn categories(&self) -> (r: &Vec<String>)
        ensures
            r.deep_view() == self@.categories,
    {
        &self.categories
    }

    /// The subfolders of the selected category.
    pub fn subfolders(&self) -> (r: &Vec<String>)
        ensures
            r.deep_view() == self@.subfolders,
    {
        &self.subfolders
    }

    /// The notes that are listed, newest first.
    pub fn files(&self) -> (r: &Vec<NoteFile>)
        ensures
            r.deep_view() == self@.files,
    {
        &self.notes.items
    }

    /// The name of the selected category.
    pub fn selected_category(&self) -> (r: &String)
        ensures
            r@ == self@.selected_cat,
    {
        &self.selected_cat
    }

    /// The name of the selected subfolder, if one is selected.
    pub fn selected_subfolder(&self) -> (r: &Option<String>)
        ensures
            r.deep_view() == self@.selected_sub,
    {
        &self.selected_sub
    }

    /// The pane that has the focus.
    pub fn focus(&self) -> (r: Focus)
        ensures
            r == self@.focus,
    {
        self.focus
    }

    /// The mode of interaction.
    pub fn mode(&self) -> (r: InputMode)
        ensures
            r == self@.mode,
    {
        self.mode
    }

    /// The text typed so far.
    pub fn input(&self) -> (r: &String)
        ensures
            r@ == self@.input,
    {
        &self.input
    }

    /// The filter in force; empty where none is.
    pub fn filter(&self) -> (r: &String)
        ensures
            r@ == self@.filter,
    {
        &self.filter
    }

    /// Whether leaving was asked for.
    pub fn should_quit(&self) -> (r: bool)
        ensures
            r == self@.should_quit,
    {
        self.should_quit
    }

    /// The time of the last synchronization, as it is shown.
    pub fn last_sync(&self) -> (r: &String)
        ensures
            r@ == self@.last_sync,
    {
        &self.last_sync
    }

    /// Where the category cursor stands.
    pub fn category_index(&self) -> (r: usize)
        ensures
            r == self@.category_index(),
            r < self@.categories.len(),
    {
        proof {
            use_type_invariant(self);
        }
        match find_name(&self.categories, &self.selected_cat) {
            Some(i) => i,
            None => 0,
        }
    }

    /// Where the subfolder cursor stands, if a listed subfolder is selected.
    pub fn subfolder_index(&self) -> (r: Option<usize>)
        ensures
            match r {
                Some(i) => self@.subfolder_index() == Some(i as int) && i < self@.subfolders.len(),
                None => self@.subfolder_index() is None,
            },
    {
        match &self.selected_sub {
            Some(name) => find_name(&self.subfolders, name),
            None => None,
        }
    }

    /// Where the file cursor stands; nowhere only where there is no file.
    pub fn file_index(&self) -> (r: Option<usize>)
        ensures
            r == self@.file_index,
            match r {
                Some(i) => i < self@.files.len(),
                None => self@.files.len() == 0,
            },
    {
        proof {
            use_type_invariant(self);
        }
        self.notes.index
    }

    /// The components of the path of the selected category's directory.
    pub fn category_path(&self) -> (path: Vec<String>)
        ensures
            path.deep_view() == self@.category_dir(),
    {
        let mut path = self.root.clone();
        assert(path.deep_view() =~= self@.root);
        if !(self.selected_cat == ROOT.to_owned()) {
            path.push(self.selected_cat.clone());
            assert(path.deep_view() =~= self@.root.push(self.selected_cat@));
        }
        path
    }

    /// The components of the path of the directory whose notes are listed.
    pub fn files_path(&self) -> (path: Vec<String>)
        ensures
            path.deep_view() == self@.files_dir(),
    {
        let mut path = self.category_path();
        let ghost dir = path.deep_view();
        match self.subfolder_index() {
            Some(i) => {
                path.push(self.subfolders[i].clone());
                assert(path.deep_view() =~= dir.push(self@.subfolders[i as int]));
            },
            None => {},
        }
        path
    }

    /// The components of the path of the note under the file cursor.
    pub fn selected_file(&self) -> (path: Option<Vec<String>>)
        ensures
            path.deep_view() == self@.selected_file(),
    {
        proof {
            use_type_invariant(self);
        }
        match self.notes.index {
            Some(i) => {
                let path = self.notes.items[i].path.clone();
                assert(path.deep_view() =~= self@.files[i as int].path);
                Some(path)
            },
            None => None,
        }
    }

    /// Takes a reading of the vault's root: lists the categories anew and
    /// falls back to the root's entry where the selected category is gone.
    pub fn load_categories(&mut self, entries: &Vec<Entry>)
        ensures
            final(self)@ == old(self)@.with_categories(entries.deep_view()),
            final(self)@.wf(),
    {
        proof {
            use_type_invariant(&*self);
            lemma_category_names(entries.deep_view(), self.filter@);
        }
        let names = category_listing(entries, self.filter.as_str());
        let found = find_name(&names, &self.selected_cat);
        proof {
            lemma_position_listed(names.deep_view(), self.selected_cat@);
        }
        self.categories = names;
        if found.is_none() {
            self.selected_cat = ROOT.to_owned();
        }
    }

    /// Takes a reading of the selected category's directory: lists the
    /// subfolders anew. A selected subfolder that is gone gives way to the
    /// first one listed, or to none.
    pub fn load_subfolders(&mut self, entries: &Vec<Entry>)
        ensures
            final(self)@ == old(self)@.with_subfolders(entries.deep_view()),
            final(self)@.wf(),
    {
        proof {
            use_type_invariant(&*self);
        }
        let names = subfolder_listing(entries);
        let kept: Option<String> = match &self.selected_sub {
            Some(name) => {
                let found = find_name(&names, name);
                proof {
                    lemma_position_listed(names.deep_view(), name@);
                }
                if found.is_some() {
                    Some(name.clone())
                } else if names.len() > 0 {
                    Some(names[0].clone())
                } else {
                    None
                }
            },
            None => None,
        };
        self.subfolders = names;
        self.selected_sub = kept;
    }

    /// Takes a reading of the directory whose notes are listed: lists the
    /// files anew. A cursor that no longer points into the list goes to the
    /// first file, or to none.
    pub fn load_files(&mut self, entries: &Vec<Entry>)
        ensures
            final(self)@ == old(self)@.with_files(entries.deep_view()),
            final(self)@.wf(),
    {
        proof {
            use_type_invariant(&*self);
        }
        let dir = self.files_path();
        let notes = note_listing(entries, self.filter.as_str(), &dir);
        let index: Option<usize> = match self.notes.index {
            Some(i) if i < notes.len() => Some(i),
            _ => if notes.len() > 0 {
                Some(0)
            } else {
                None
            },
        };
        self.notes = FileList { items: notes, index };
    }

    /// Reads the vault again with `read`, which gives what a directory
    /// holds: first the root, then the directory of the category that is
    /// selected after that, then the directory whose notes are listed after
    /// that. A directory that cannot be read is to be given as empty.
    pub fn refresh<F: Fn(&Vec<String>) -> Vec<Entry>>(&mut self, read: F)
        requires
            forall|path: &Vec<String>| call_requires(read, (path,)),
        ensures
            exists|root: Seq<EntryView>, category: Seq<EntryView>, files: Seq<EntryView>|
                {
                    &&& reads(read, old(self)@.root, root)
                    &&& reads(read, old(self)@.with_categories(root).category_dir(), category)
                    &&& reads(
                        read,
                        old(self)@.with_categories(root).with_subfolders(category).files_dir(),
                        files,
                    )
                    &&& final(self)@ == old(self)@.refreshed(root, category, files)
                },
            final(self)@.wf(),
    {
        let ghost before = self@;
        let root_path = self.root.clone();
        assert(root_path.deep_view() =~= before.root);
        let root = read(&root_path);
        self.load_categories(&root);
        let category_path = self.category_path();
        let category = read(&category_path);
        self.load_subfolders(&category);
        let files_path = self.files_path();
        let files = read(&files_path);
        self.load_files(&files);
        proof {
            assert(reads(read, before.root, root.deep_view()));
            assert(reads(
                read,
                before.with_categories(root.deep_view()).category_dir(),
                category.deep_view(),
            ));
            assert(reads(
                read,
                before.with_categories(root.deep_view()).with_subfolders(
                    category.deep_view(),
                ).files_dir(),
                files.deep_view(),
            ));
            assert(self@ == before.refreshed(
                root.deep_view(),
                category.deep_view(),
                files.deep_view(),
            ));
        }
    }

    /// Moves the cursor of `pane` one step, around the ends of its list. The
    /// category and subfolder cursors carry their selection along, and ask
    /// for a refresh of what depends on it.
    pub fn move_in(&mut self, pane: Focus, dir: Direction) -> (action: Action)
        ensures
            final(self)@ == old(self)@.moved_in(pane, dir),
            action.deep_view() == old(self)@.move_action(pane),
            final(self)@.wf(),
    {
        proof {
            use_type_invariant(&*self);
        }
        match pane {
            Focus::Categories => {
                let cur = self.category_index();
                let next = step(cur, self.categories.len(), dir);
                self.selected_cat = self.categories[next].clone();
                Action::Refresh
            },
            Focus::Subfolders => {
                if self.subfolders.len() > 0 {
                    let cur = match self.subfolder_index() {
                        Some(i) => i,
                        None => 0,
                    };
                    let next = step(cur, self.subfolders.len(), dir);
                    self.selected_sub = Some(self.subfolders[next].clone());
                    Action::Refresh
                } else {
                    Action::Nothing
                }
            },
            Focus::Files => {
                if self.notes.items.len() > 0 {
                    let cur = match self.notes.index {
                        Some(i) => i,
                        None => 0,
                    };
                    let next = step(cur, self.notes.items.len(), dir);
                    self.notes.index = Some(next);
                }
                Action::Nothing
            },
        }
    }

    /// Moves the cursor of the focused pane one step.
    pub fn move_selection(&mut self, dir: Direction) -> (action: Action)
        ensures
            final(self)@ == old(self)@.moved_in(old(self)@.focus, dir),
            action.deep_view() == old(self)@.move_action(old(self)@.focus),
            final(self)@.wf(),
    {
        let pane = self.focus;
        self.move_in(pane, dir)
    }

    /// Puts `query` in force as the filter and asks for a refresh; the empty
    /// query lifts the filter.
    pub fn set_filter(&mut self, query: String) -> (action: Action)
        ensures
            final(self)@ == (VaultView { filter: query@, ..old(self)@ }),
            action.deep_view() == ActionView::Refresh,
            final(self)@.wf(),
    {
        proof {
            use_type_invariant(&*self);
        }
        self.filter = query;
        Action::Refresh
    }

    /// Begins the typing of the name of a new item, from the normal mode.
    pub fn begin_create(&mut self, kind: CreateKind)
        ensures
            final(self)@ == old(self)@.begun_create(kind),
            final(self)@.wf(),
    {
        proof {
            use_type_invariant(&*self);
        }
        if self.mode == InputMode::Normal {
            self.mode = kind.mode();
            self.input = String::new();
        }
    }

    /// Commits `name` as the name of the new item: says what is to be
    /// created, selects a new category or subfolder, and returns to the
    /// normal mode. An empty name creates nothing.
    pub fn commit_create(&mut self, name: String) -> (action: Action)
        ensures
            final(self)@ == old(self)@.committed_create(name@),
            action.deep_view() == old(self)@.create_action(name@),
            final(self)@.wf(),
    {
        proof {
            use_type_invariant(&*self);
        }
        if !self.mode.is_creating() {
            return Action::Nothing;
        }
        let mode = self.mode;
        if name.as_str().is_empty() {
            self.mode = InputMode::Normal;
            return Action::Refresh;
        }
        match mode {
            InputMode::NewCat => {
                let mut path = self.root.clone();
                path.push(name.clone());
                assert(path.deep_view() =~= self@.root.push(name@));
                self.mode = InputMode::Normal;
                self.selected_cat = name;
                Action::CreateDir(path)
            },
            InputMode::NewFolder => {
                let mut path = self.category_path();
                let ghost dir = path.deep_view();
                path.push(name.clone());
                assert(path.deep_view() =~= dir.push(name@));
                self.mode = InputMode::Normal;
                self.selected_sub = Some(name);
                Action::CreateDir(path)
            },
            _ => {
                let mut path = self.files_path();
                let ghost dir = path.deep_view();
                let mut file = name;
                file.append(NOTE_SUFFIX);
                path.push(file);
                assert(path.deep_view() =~= dir.push(name@ + NOTE_SUFFIX@));
                self.mode = InputMode::Normal;
                Action::WriteNote(path, NOTE_HEADING.to_owned())
            },
        }
    }

    /// Asks for the confirmation of a deletion, from the normal mode.
    pub fn begin_delete(&mut self)
        ensures
            final(self)@ == old(self)@.begun_delete(),
            final(self)@.wf(),
    {
        proof {
            use_type_invariant(&*self);
        }
        if self.mode == InputMode::Normal {
            self.mode = InputMode::ConfirmDelete;
        }
    }

    /// What a confirmed deletion would remove: the selected item of the
    /// focused pane, never the root's entry.
    pub fn delete_target(&self) -> (path: Option<Vec<String>>)
        ensures
            path.deep_view() == self@.delete_target(),
    {
        match self.focus {
            Focus::Categories => {
                if self.selected_cat == ROOT.to_owned() {
                    None
                } else {
                    let mut path = self.root.clone();
                    path.push(self.selected_cat.clone());
                    assert(path.deep_view() =~= self@.root.push(self.selected_cat@));
                    Some(path)
                }
            },
            Focus::Subfolders => {
                match self.subfolder_index() {
                    Some(i) => {
                        let mut path = self.category_path();
                        let ghost dir = path.deep_view();
                        path.push(self.subfolders[i].clone());
                        assert(path.deep_view() =~= dir.push(self@.subfolders[i as int]));
                        Some(path)
                    },
                    None => None,
                }
            },
            Focus::Files => self.selected_file(),
        }
    }

    /// Takes the answer to a pending deletion. A yes asks for the removal of
    /// the selected item; any answer returns to the normal mode and asks for
    /// a refresh.
    pub fn confirm_delete(&mut self, yes: bool) -> (action: Action)
        ensures
            final(self)@ == old(self)@.confirmed_delete(yes),
            action.deep_view() == old(self)@.delete_action(yes),
            final(self)@.wf(),
    {
        proof {
            use_type_invariant(&*self);
        }
        if self.mode != InputMode::ConfirmDelete {
            return Action::Nothing;
        }
        self.mode = InputMode::Normal;
        if !yes {
            return Action::Refresh;
        }
        match self.delete_target() {
            Some(path) => {
                if self.focus == Focus::Categories {
                    self.selected_cat = ROOT.to_owned();
                }
                Action::Remove(path)
            },
            None => Action::Refresh,
        }
    }

    /// Begins the typing of a filter, from the normal mode.
    pub fn begin_search(&mut self)
        ensures
            final(self)@ == old(self)@.begun_search(),
            final(self)@.wf(),
    {
        proof {
            use_type_invariant(&*self);
        }
        if self.mode == InputMode::Normal {
            self.mode = InputMode::Searching;
            self.input = String::new();
        }
    }

    /// Commits the typed text as the filter and returns to the normal mode.
    pub fn commit_search(&mut self) -> (action: Action)
        ensures
            final(self)@ == old(self)@.committed_search(),
            action.deep_view() == if old(self)@.mode == InputMode::Searching {
                ActionView::Refresh
            } else {
                ActionView::Nothing
            },
            final(self)@.wf(),
    {
        proof {
            use_type_invariant(&*self);
        }
        if self.mode != InputMode::Searching {
            return Action::Nothing;
        }
        self.mode = InputMode::Normal;
        let query = self.input.clone();
        self.set_filter(query)
    }

    /// Gives up the typing of a name or a filter.
    pub fn cancel(&mut self)
        ensures
            final(self)@ == old(self)@.cancelled(),
            final(self)@.wf(),
    {
        proof {
            use_type_invariant(&*self);
        }
        if self.mode.takes_text() {
            self.mode = InputMode::Normal;
        }
    }

    /// Adds a character to the text that is being typed.
    pub fn type_char(&mut self, c: char)
        ensures
            final(self)@ == old(self)@.typed(c),
            final(self)@.wf(),
    {
        proof {
            use_type_invariant(&*self);
        }
        if self.mode.takes_text() {
            let mut text = self.input.clone();
            push_char(&mut text, c);
            self.input = text;
        }
    }

    /// Takes back the last character of the text that is being typed.
    pub fn erase_char(&mut self)
        ensures
            final(self)@ == old(self)@.erased(),
            final(self)@.wf(),
    {
        proof {
            use_type_invariant(&*self);
        }
        if self.mode.takes_text() {
            let mut text = self.input.clone();
            let _ = pop_char(&mut text);
            self.input = text;
        }
    }

    /// Asks for the editor on the note under the cursor, if the file pane has
    /// the focus.
    pub fn open_selected(&self) -> (action: Action)
        ensures
            action.deep_view() == self@.open_action(),
    {
        if self.focus == Focus::Files {
            match self.selected_file() {
                Some(path) => Action::Edit(path),
                None => Action::Nothing,
            }
        } else {
            Action::Nothing
        }
    }

    /// Notes that leaving was asked for.
    pub fn request_quit(&mut self) -> (action: Action)
        ensures
            final(self)@ == (VaultView { should_quit: true, ..old(self)@ }),
            action.deep_view() == ActionView::Quit,
            final(self)@.wf(),
    {
        proof {
            use_type_invariant(&*self);
        }
        self.should_quit = true;
        Action::Quit
    }

    /// Notes the time of a synchronization, as it is to be shown.
    pub fn finish_sync(&mut self, stamp: String)
        ensures
            final(self)@ == (VaultView { last_sync: stamp@, ..old(self)@ }),
            final(self)@.wf(),
    {
        proof {
            use_type_invariant(&*self);
        }
        self.last_sync = stamp;
    }

    /// Gives the focus to the pane after the one that has it, from the last
    /// pane back to the first.
    pub fn focus_next(&mut self)
        ensures
            final(self)@ == (VaultView { focus: old(self)@.focus.spec_next(), ..old(self)@ }),
            final(self)@.wf(),
    {
        proof {
            use_type_invariant(&*self);
        }
        self.focus = self.focus.next();
    }

    /// Gives the focus to the pane `next`.
    pub fn set_focus(&mut self, next: Focus)
        ensures
            final(self)@ == (VaultView { focus: next, ..old(self)@ }),
            final(self)@.wf(),
    {
        proof {
            use_type_invariant(&*self);
        }
        self.focus = next;
    }
}

} // verus!
