//! What a transition asks its caller to do.

use vstd::prelude::*;

verus! {

/// What the caller is asked to do after a transition, as contracts speak of it.
pub enum ActionView {
    Nothing,
    Refresh,
    CreateDir(Seq<Seq<char>>),
    WriteNote(Seq<Seq<char>>, Seq<char>),
    Remove(Seq<Seq<char>>),
    Edit(Seq<Seq<char>>),
    Sync,
    Quit,
}

/// What the caller is asked to do after a transition. Paths are given by
/// their components, the vault's root first.
#[derive(Clone, Debug, PartialEq, Eq)]
pub enum Action {
    /// Nothing.
    Nothing,
    /// Read the vault again.
    Refresh,
    /// Create this directory with the directories above it, then read the
    /// vault again.
    CreateDir(Vec<String>),
    /// Write a file at this path with this text, then read the vault again.
    WriteNote(Vec<String>, String),
    /// Remove what lies at this path, a directory with all it holds, then
    /// read the vault again.
    Remove(Vec<String>),
    /// Run the editor on this file, then read the vault again.
    Edit(Vec<String>),
    /// Synchronize the vault.
    Sync,
    /// Leave.
    Quit,
}

impl DeepView for Action {
    type V = ActionView;

    open spec fn deep_view(&self) -> ActionView {
        match self {
            Action::Nothing => ActionView::Nothing,
            Action::Refresh => ActionView::Refresh,
            Action::CreateDir(path) => ActionView::CreateDir(path.deep_view()),
            Action::WriteNote(path, text) => ActionView::WriteNote(path.deep_view(), text@),
            Action::Remove(path) => ActionView::Remove(path.deep_view()),
            Action::Edit(path) => ActionView::Edit(path.deep_view()),
            Action::Sync => ActionView::Sync,
            Action::Quit => ActionView::Quit,
        }
    }
}

impl ActionView {
    /// The actions after which the vault is read again.
    pub open spec fn refreshes(self) -> bool {
        !(self is Nothing || self is Sync || self is Quit)
    }
}

impl Action {
    /// Whether the vault is to be read again after this action.
    pub fn refreshes(&self) -> (r: bool)
        ensures
            r == self.deep_view().refreshes(),
    {
        match self {
            Action::Nothing | Action::Sync | Action::Quit => false,
            _ => true,
        }
    }
}

} // verus!
