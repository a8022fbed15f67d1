//! The browser as a state machine over plain values: what a state is, and
//! what each transition makes of it.

use vstd::prelude::*;
use crate::action::ActionView;
use crate::cursor::position;
use crate::cursor::stepped;
use crate::cursor::Direction;
use crate::listing::category_names;
use crate::listing::note_list;
use crate::listing::subfolder_names;
use crate::listing::EntryView;
use crate::listing::NoteView;
use crate::listing::ROOT;
use crate::names::strictly_ascending;

verus! {

/// The text that a new note starts with.
pub const NOTE_HEADING: &'static str = "# New Note";

/// What is put behind a note's name to name its file.
pub const NOTE_SUFFIX: &'static str = ".md";

/// What is shown as the time of the last synchronization before there was one.
pub const NEVER_SYNCED: &'static str = "Manual";

/// The pane that receives navigation keys.
#[derive(Clone, Copy, Debug, PartialEq, Eq, Structural)]
pub enum Focus {
    Categories,
    Subfolders,
    Files,
}

impl Focus {
    /// The pane after this one, wrapping from the last to the first.
    pub open spec fn spec_next(self) -> Focus {
        match self {
            Focus::Categories => Focus::Subfolders,
            Focus::Subfolders => Focus::Files,
            Focus::Files => Focus::Categories,
        }
    }

    /// The pane after this one, wrapping from the last to the first.
    #[verifier::when_used_as_spec(spec_next)]
    pub fn next(self) -> (r: Focus)
        ensures
            r == self.spec_next(),
    {
        match self {
            Focus::Categories => Focus::Subfolders,
            Focus::Subfolders => Focus::Files,
            Focus::Files => Focus::Categories,
        }
    }
}

/// What the keyboard input currently means.
#[derive(Clone, Copy, Debug, PartialEq, Eq, Structural)]
pub enum InputMode {
    /// Keys navigate and start the other modes.
    Normal,
    /// The name of a new category is being typed.
    NewCat,
    /// The name of a new subfolder is being typed.
    NewFolder,
    /// The name of a new note is being typed.
    NewNote,
    /// A search filter is being typed.
    Searching,
    /// A deletion waits for its confirmation.
    ConfirmDelete,
}

impl InputMode {
    /// The modes in which a name for something new is typed.
    pub open spec fn spec_is_creating(self) -> bool {
        self == InputMode::NewCat || self == InputMode::NewFolder || self == InputMode::NewNote
    }

    /// Whether a name for something new is being typed.
    #[verifier::when_used_as_spec(spec_is_creating)]
    pub fn is_creating(self) -> (r: bool)
        ensures
            r == self.spec_is_creating(),
    {
        match self {
            InputMode::NewCat | InputMode::NewFolder | InputMode::NewNote => true,
            _ => false,
        }
    }

    /// The modes in which keys are taken as text.
    pub open spec fn spec_takes_text(self) -> bool {
        self.spec_is_creating() || self == InputMode::Searching
    }

    /// Whether keys are taken as text.
    #[verifier::when_used_as_spec(spec_takes_text)]
    pub fn takes_text(self) -> (r: bool)
        ensures
            r == self.spec_takes_text(),
    {
        match self {
            InputMode::NewCat | InputMode::NewFolder | InputMode::NewNote | InputMode::Searching => true,
            _ => false,
        }
    }
}

/// What can be created.
#[derive(Clone, Copy, Debug, PartialEq, Eq, Structural)]
pub enum CreateKind {
    Category,
    Subfolder,
    Note,
}

impl CreateKind {
    /// The mode in which the name of a new item of this kind is typed.
    pub open spec fn spec_mode(self) -> InputMode {
        match self {
            CreateKind::Category => InputMode::NewCat,
            CreateKind::Subfolder => InputMode::NewFolder,
            CreateKind::Note => InputMode::NewNote,
        }
    }

    /// The mode in which the name of a new item of this kind is typed.
    #[verifier::when_used_as_spec(spec_mode)]
    pub fn mode(self) -> (r: InputMode)
        ensures
            r == self.spec_mode(),
    {
        match self {
            CreateKind::Category => InputMode::NewCat,
            CreateKind::Subfolder => InputMode::NewFolder,
            CreateKind::Note => InputMode::NewNote,
        }
    }
}

/// A key press, as far as the browser tells keys apart.
#[derive(Clone, Copy, Debug, PartialEq, Eq, Structural)]
pub enum Key {
    Char(char),
    Tab,
    Enter,
    Esc,
    Backspace,
    Left,
    Right,
    Up,
    Down,
    Other,
}

/// A state as contracts speak of it.
pub struct VaultView {
    /// The components of the path of the vault's root.
    pub root: Seq<Seq<char>>,
    pub categories: Seq<Seq<char>>,
    pub subfolders: Seq<Seq<char>>,
    pub files: Seq<NoteView>,
    /// The name of the selected category.
    pub selected_cat: Seq<char>,
    /// The name of the selected subfolder, if one is selected.
    pub selected_sub: Option<Seq<char>>,
    /// The file cursor.
    pub file_index: Option<usize>,
    pub focus: Focus,
    pub mode: InputMode,
    /// The text typed so far.
    pub input: Seq<char>,
    pub filter: Seq<char>,
    pub should_quit: bool,
    pub last_sync: Seq<char>,
}

impl VaultView {
    /// What holds of every state: the root's entry leads the categories and
    /// occurs once, categories and subfolders are in ascending order, and the
    /// file cursor points into the file list, standing nowhere only where
    /// there is no file.
    pub open spec fn wf(self) -> bool {
        &&& self.categories.len() > 0
        &&& self.categories[0] == ROOT@
        &&& strictly_ascending(self.categories.skip(1))
        &&& !self.categories.skip(1).contains(ROOT@)
        &&& strictly_ascending(self.subfolders)
        &&& match self.file_index {
            Some(i) => i < self.files.len(),
            None => self.files.len() == 0,
        }
    }

    /// Where the category cursor stands: at the selected category, or at the
    /// root's entry while that category is not listed.
    pub open spec fn category_index(self) -> int {
        match position(self.categories, self.selected_cat) {
            Some(i) => i,
            None => 0,
        }
    }

    /// Where the subfolder cursor stands, if a listed subfolder is selected.
    pub open spec fn subfolder_index(self) -> Option<int> {
        match self.selected_sub {
            Some(name) => position(self.subfolders, name),
            None => None,
        }
    }

    /// The directory of the selected category: the root itself for the
    /// root's entry.
    pub open spec fn category_dir(self) -> Seq<Seq<char>> {
        if self.selected_cat == ROOT@ {
            self.root
        } else {
            self.root.push(self.selected_cat)
        }
    }

    /// The directory whose notes are listed: that of the selected subfolder,
    /// or the category's own while none is selected.
    pub open spec fn files_dir(self) -> Seq<Seq<char>> {
        match self.subfolder_index() {
            Some(i) => self.category_dir().push(self.subfolders[i]),
            None => self.category_dir(),
        }
    }

    /// The path of the note under the file cursor.
    pub open spec fn selected_file(self) -> Option<Seq<Seq<char>>> {
        match self.file_index {
            Some(i) => Some(self.files[i as int].path),
            None => None,
        }
    }

    /// The state after a reading of the vault's root: the categories are
    /// listed anew, and the selection falls back to the root's entry where
    /// the selected category is no longer listed.
    pub open spec fn with_categories(self, entries: Seq<EntryView>) -> VaultView {
        let listed = category_names(entries, self.filter);
        VaultView {
            categories: listed,
            selected_cat: if listed.contains(self.selected_cat) {
                self.selected_cat
            } else {
                ROOT@
            },
            ..self
        }
    }

    /// The state after a reading of the selected category's directory: the
    /// subfolders are listed anew, and a selected subfolder that is no longer
    /// listed gives way to the first one, or to none.
    pub open spec fn with_subfolders(self, entries: Seq<EntryView>) -> VaultView {
        let listed = subfolder_names(entries);
        VaultView {
            subfolders: listed,
            selected_sub: match self.selected_sub {
                Some(name) => if listed.contains(name) {
                    Some(name)
                } else if listed.len() > 0 {
                    Some(listed[0])
                } else {
                    None
                },
                None => None,
            },
            ..self
        }
    }

    /// The state after a reading of the directory whose notes are listed:
    /// the files are listed anew, and a cursor that no longer points into the
    /// list goes to the first file, or to none.
    pub open spec fn with_files(self, entries: Seq<EntryView>) -> VaultView {
        let listed = note_list(entries, self.filter, self.files_dir());
        VaultView {
            files: listed,
            file_index: match self.file_index {
                Some(i) if i < listed.len() => Some(i),
                _ => if listed.len() > 0 {
                    Some(0usize)
                } else {
                    None
                },
            },
            ..self
        }
    }

    /// The state after a full refresh, given what the three directories hold
    /// that it reads one after the other.
    pub open spec fn refreshed(
        self,
        root: Seq<EntryView>,
        category: Seq<EntryView>,
        files: Seq<EntryView>,
    ) -> VaultView {
        self.with_categories(root).with_subfolders(category).with_files(files)
    }

    /// The state after one step of the cursor of `pane`. An empty list has
    /// no cursor to move; a cursor that stands nowhere moves as from the
    /// first item.
    pub open spec fn moved_in(self, pane: Focus, dir: Direction) -> VaultView {
        match pane {
            Focus::Categories => VaultView {
                selected_cat: self.categories[stepped(
                    self.category_index(),
                    self.categories.len() as int,
                    dir,
                )],
                ..self
            },
            Focus::Subfolders => if self.subfolders.len() > 0 {
                VaultView {
                    selected_sub: Some(
                        self.subfolders[stepped(
                            match self.subfolder_index() {
                                Some(i) => i,
                                None => 0,
                            },
                            self.subfolders.len() as int,
                            dir,
                        )],
                    ),
                    ..self
                }
            } else {
                self
            },
            Focus::Files => if self.files.len() > 0 {
                VaultView {
                    file_index: Some(
                        stepped(
                            match self.file_index {
                                Some(i) => i as int,
                                None => 0,
                            },
                            self.files.len() as int,
                            dir,
                        ) as usize,
                    ),
                    ..self
                }
            } else {
                self
            },
        }
    }

    /// What a step of the cursor of `pane` asks for: a refresh where the
    /// lists below that pane depend on its selection.
    pub open spec fn move_action(self, pane: Focus) -> ActionView {
        match pane {
            Focus::Categories => ActionView::Refresh,
            Focus::Subfolders => if self.subfolders.len() > 0 {
                ActionView::Refresh
            } else {
                ActionView::Nothing
            },
            Focus::Files => ActionView::Nothing,
        }
    }

    /// The state once the typing of a name has begun; only the normal mode
    /// gives way to it.
    pub open spec fn begun_create(self, kind: CreateKind) -> VaultView {
        if self.mode == InputMode::Normal {
            VaultView { mode: kind.spec_mode(), input: Seq::empty(), ..self }
        } else {
            self
        }
    }

    /// What committing `name` asks for: nothing outside a creating mode, only
    /// a refresh for an empty name, else the directory or file to create.
    pub open spec fn create_action(self, name: Seq<char>) -> ActionView {
        if !self.mode.spec_is_creating() {
            ActionView::Nothing
        } else if name.len() == 0 {
            ActionView::Refresh
        } else if self.mode == InputMode::NewCat {
            ActionView::CreateDir(self.root.push(name))
        } else if self.mode == InputMode::NewFolder {
            ActionView::CreateDir(self.category_dir().push(name))
        } else {
            ActionView::WriteNote(self.files_dir().push(name + NOTE_SUFFIX@), NOTE_HEADING@)
        }
    }

    /// The state after committing `name`: back in the normal mode, with a new
    /// category or subfolder selected by its name.
    pub open spec fn committed_create(self, name: Seq<char>) -> VaultView {
        if !self.mode.spec_is_creating() {
            self
        } else if name.len() == 0 || self.mode == InputMode::NewNote {
            VaultView { mode: InputMode::Normal, ..self }
        } else if self.mode == InputMode::NewCat {
            VaultView { mode: InputMode::Normal, selected_cat: name, ..self }
        } else {
            VaultView { mode: InputMode::Normal, selected_sub: Some(name), ..self }
        }
    }

    /// The state once a deletion waits for its confirmation; only the normal
    /// mode gives way to it.
    pub open spec fn begun_delete(self) -> VaultView {
        if self.mode == InputMode::Normal {
            VaultView { mode: InputMode::ConfirmDelete, ..self }
        } else {
            self
        }
    }

    /// What a confirmed deletion removes: the selected item of the focused
    /// pane, never the root's entry.
    pub open spec fn delete_target(self) -> Option<Seq<Seq<char>>> {
        match self.focus {
            Focus::Categories => if self.selected_cat != ROOT@ {
                Some(self.root.push(self.selected_cat))
            } else {
                None
            },
            Focus::Subfolders => match self.subfolder_index() {
                Some(i) => Some(self.category_dir().push(self.subfolders[i])),
                None => None,
            },
            Focus::Files => self.selected_file(),
        }
    }

    /// What the answer to a pending deletion asks for: the removal where the
    /// answer is yes and there is something to remove, else only a refresh.
    pub open spec fn delete_action(self, yes: bool) -> ActionView {
        if self.mode != InputMode::ConfirmDelete {
            ActionView::Nothing
        } else if yes && self.delete_target() is Some {
            ActionView::Remove(self.delete_target().unwrap())
        } else {
            ActionView::Refresh
        }
    }

    /// The state after the answer to a pending deletion: back in the normal
    /// mode, and at the root's entry where a category is removed.
    pub open spec fn confirmed_delete(self, yes: bool) -> VaultView {
        if self.mode != InputMode::ConfirmDelete {
            self
        } else if yes && self.delete_target() is Some && self.focus == Focus::Categories {
            VaultView { mode: InputMode::Normal, selected_cat: ROOT@, ..self }
        } else {
            VaultView { mode: InputMode::Normal, ..self }
        }
    }

    /// The state once the typing of a filter has begun; only the normal mode
    /// gives way to it.
    pub open spec fn begun_search(self) -> VaultView {
        if self.mode == InputMode::Normal {
            VaultView { mode: InputMode::Searching, input: Seq::empty(), ..self }
        } else {
            self
        }
    }

    /// The state after committing the typed filter.
    pub open spec fn committed_search(self) -> VaultView {
        if self.mode == InputMode::Searching {
            VaultView { mode: InputMode::Normal, filter: self.input, ..self }
        } else {
            self
        }
    }

    /// The state after typing is given up.
    pub open spec fn cancelled(self) -> VaultView {
        if self.mode.spec_takes_text() {
            VaultView { mode: InputMode::Normal, ..self }
        } else {
            self
        }
    }

    /// The state after a character is typed.
    pub open spec fn typed(self, c: char) -> VaultView {
        if self.mode.spec_takes_text() {
            VaultView { input: self.input.push(c), ..self }
        } else {
            self
        }
    }

    /// The state after the last typed character is taken back.
    pub open spec fn erased(self) -> VaultView {
        if self.mode.spec_takes_text() && self.input.len() > 0 {
            VaultView { input: self.input.drop_last(), ..self }
        } else {
            self
        }
    }

    /// The state after a key press. In the normal mode keys navigate and
    /// start the other modes; a pending deletion takes any key as its answer,
    /// and only `y` as a yes; while text is typed, keys edit it, commit it or
    /// give it up.
    pub open spec fn after_key(self, key: Key) -> VaultView {
        match self.mode {
            InputMode::Normal => match key {
                Key::Char('q') => VaultView { should_quit: true, ..self },
                Key::Tab => VaultView { focus: self.focus.spec_next(), ..self },
                Key::Char('h') | Key::Left => self.moved_in(Focus::Categories, Direction::Backward),
                Key::Char('l') | Key::Right => self.moved_in(Focus::Categories, Direction::Forward),
                Key::Char('j') | Key::Down => self.moved_in(self.focus, Direction::Forward),
                Key::Char('k') | Key::Up => self.moved_in(self.focus, Direction::Backward),
                Key::Char('C') => self.begun_create(CreateKind::Category),
                Key::Char('F') => self.begun_create(CreateKind::Subfolder),
                Key::Char('N') => self.begun_create(CreateKind::Note),
                Key::Char('D') => self.begun_delete(),
                Key::Char('/') => self.begun_search(),
                _ => self,
            },
            InputMode::ConfirmDelete => self.confirmed_delete(key == Key::Char('y')),
            InputMode::Searching => match key {
                Key::Enter => self.committed_search(),
                Key::Esc => self.cancelled(),
                Key::Char(c) => self.typed(c),
                Key::Backspace => self.erased(),
                _ => self,
            },
            _ => match key {
                Key::Enter => self.committed_create(self.input),
                Key::Esc => self.cancelled(),
                Key::Char(c) => self.typed(c),
                Key::Backspace => self.erased(),
                _ => self,
            },
        }
    }

    /// What a key press asks the caller to do.
    pub open spec fn key_action(self, key: Key) -> ActionView {
        match self.mode {
            InputMode::Normal => match key {
                Key::Char('q') => ActionView::Quit,
                Key::Char('S') => ActionView::Sync,
                Key::Char('r') => ActionView::Refresh,
                Key::Char('h') | Key::Left | Key::Char('l') | Key::Right => self.move_action(
                    Focus::Categories,
                ),
                Key::Char('j') | Key::Down | Key::Char('k') | Key::Up => self.move_action(self.focus),
                Key::Enter => self.open_action(),
                _ => ActionView::Nothing,
            },
            InputMode::ConfirmDelete => self.delete_action(key == Key::Char('y')),
            InputMode::Searching => match key {
                Key::Enter => ActionView::Refresh,
                _ => ActionView::Nothing,
            },
            _ => match key {
                Key::Enter => self.create_action(self.input),
                _ => ActionView::Nothing,
            },
        }
    }

    /// What opening the selected note asks for: the editor on the note under
    /// the cursor, if the file pane has the focus.
    pub open spec fn open_action(self) -> ActionView {
        if self.focus == Focus::Files && self.selected_file() is Some {
            ActionView::Edit(self.selected_file().unwrap())
        } else {
            ActionView::Nothing
        }
    }
}

} // verus!
