//! What is shown around the lists.

use vstd::prelude::*;
use crate::model::InputMode;

verus! {

/// The hint at the foot of the screen in the normal mode.
pub const NORMAL_HINT: &'static str =
    " [TAB] Focus | [S] Sync to Cloud | [C/F/N] New | [D] Delete | [/] Search | [Enter] Edit ";

/// The hint while a deletion waits for its confirmation.
pub const DELETE_HINT: &'static str = " !!! PERMANENT DELETE? [y/n] !!! ";

/// The hint while a name is typed.
pub const NAME_HINT: &'static str = " Name: [ENTER] Save | [ESC] Cancel ";

/// The hint while a filter is typed.
pub const SEARCH_HINT: &'static str = " Search: [ENTER] Apply | [ESC] Cancel ";

/// What the preview shows while no note is selected.
pub const NO_PREVIEW: &'static str = "---";

/// What the preview shows for a note that could not be read.
pub const UNREADABLE: &'static str = "Error reading file";

/// The colours in which the categories are shown, in turn.
#[derive(Clone, Copy, Debug, PartialEq, Eq, Structural)]
pub enum Accent {
    Cyan,
    Magenta,
    Green,
    Yellow,
    Blue,
}

/// The hint for a mode.
pub open spec fn hint_of(mode: InputMode) -> Seq<char> {
    match mode {
        InputMode::Normal => NORMAL_HINT@,
        InputMode::ConfirmDelete => DELETE_HINT@,
        InputMode::Searching => SEARCH_HINT@,
        _ => NAME_HINT@,
    }
}

/// The colour of the category at `index`: the five colours in turn.
pub open spec fn accent_of(index: int) -> Accent {
    let turn = index % 5;
    if turn == 0 {
        Accent::Cyan
    } else if turn == 1 {
        Accent::Magenta
    } else if turn == 2 {
        Accent::Green
    } else if turn == 3 {
        Accent::Yellow
    } else {
        Accent::Blue
    }
}

/// What the preview shows: the text of the selected note, a notice where it
/// could not be read, a dash where no note is selected.
pub open spec fn preview_of(note: Option<Option<Seq<char>>>) -> Seq<char> {
    match note {
        Some(Some(text)) => text,
        Some(None) => UNREADABLE@,
        None => NO_PREVIEW@,
    }
}

/// The three shares, in percent, into which a length is split to leave
/// `percent` of it in the middle: the margins take what is left, half each.
pub open spec fn margins_of(percent: u16) -> (u16, u16, u16) {
    (((100 - percent) / 2) as u16, percent, ((100 - percent) / 2) as u16)
}

/// The shares into which a length is split to leave `percent` of it in the
/// middle.
pub fn centered_margins(percent: u16) -> (shares: (u16, u16, u16))
    requires
        percent <= 100,
    ensures
        shares == margins_of(percent),
{
    let margin: u16 = (100 - percent) / 2;
    (margin, percent, margin)
}

/// The hint at the foot of the screen.
pub fn hint(mode: InputMode) -> (text: &'static str)
    ensures
        text@ == hint_of(mode),
{
    match mode {
        InputMode::Normal => NORMAL_HINT,
        InputMode::ConfirmDelete => DELETE_HINT,
        InputMode::Searching => SEARCH_HINT,
        _ => NAME_HINT,
    }
}

/// The colour of the category at `index`.
pub fn accent(index: usize) -> (colour: Accent)
    ensures
        colour == accent_of(index as int),
{
    let turn: usize = index % 5;
    if turn == 0 {
        Accent::Cyan
    } else if turn == 1 {
        Accent::Magenta
    } else if turn == 2 {
        Accent::Green
    } else if turn == 3 {
        Accent::Yellow
    } else {
        Accent::Blue
    }
}

/// What the preview shows. `note` is `None` while no note is selected, and
/// holds `None` for a selected note that could not be read.
pub fn preview(note: Option<Option<String>>) -> (text: String)
    ensures
        text@ == preview_of(
            match note {
                Some(Some(t)) => Some(Some(t@)),
                Some(None) => Some(None),
                None => None,
            },
        ),
{
    match note {
        Some(Some(text)) => text,
        Some(None) => UNREADABLE.to_owned(),
        None => NO_PREVIEW.to_owned(),
    }
}

} // verus!
