//! The keys and what they mean in each mode.

use vstd::prelude::*;
use crate::action::Action;
use crate::cursor::Direction;
use crate::model::CreateKind;
use crate::model::Focus;
use crate::model::InputMode;
use crate::model::Key;
use crate::state::VaultState;

verus! {

impl VaultState {
    /// Takes a key press: changes the state as the mode has it, and says
    /// what the caller is to do.
    pub fn handle_key(&mut self, key: Key) -> (action: Action)
        ensures
            final(self)@ == old(self)@.after_key(key),
            action.deep_view() == old(self)@.key_action(key),
            final(self)@.wf(),
    {
        self.well_formed();
        match self.mode() {
            InputMode::Normal => match key {
                Key::Char('q') => self.request_quit(),
                Key::Char('S') => Action::Sync,
                Key::Char('r') => Action::Refresh,
                Key::Tab => {
                    self.focus_next();
                    Action::Nothing
                },
                Key::Char('h') | Key::Left => self.move_in(Focus::Categories, Direction::Backward),
                Key::Char('l') | Key::Right => self.move_in(Focus::Categories, Direction::Forward),
                Key::Char('j') | Key::Down => self.move_selection(Direction::Forward),
                Key::Char('k') | Key::Up => self.move_selection(Direction::Backward),
                Key::Char('C') => {
                    self.begin_create(CreateKind::Category);
                    Action::Nothing
                },
                Key::Char('F') => {
                    self.begin_create(CreateKind::Subfolder);
                    Action::Nothing
                },
                Key::Char('N') => {
                    self.begin_create(CreateKind::Note);
                    Action::Nothing
                },
                Key::Char('D') => {
                    self.begin_delete();
                    Action::Nothing
                },
                Key::Char('/') => {
                    self.begin_search();
                    Action::Nothing
                },
                Key::Enter => self.open_selected(),
                _ => Action::Nothing,
            },
            InputMode::ConfirmDelete => {
                let yes = key == Key::Char('y');
                self.confirm_delete(yes)
            },
            InputMode::Searching => match key {
                Key::Enter => self.commit_search(),
                Key::Esc => {
                    self.cancel();
                    Action::Nothing
                },
                Key::Char(c) => {
                    self.type_char(c);
                    Action::Nothing
                },
                Key::Backspace => {
                    self.erase_char();
                    Action::Nothing
                },
                _ => Action::Nothing,
            },
            _ => match key {
                Key::Enter => {
                    let name = self.input().clone();
                    self.commit_create(name)
                },
                Key::Esc => {
                    self.cancel();
                    Action::Nothing
                },
                Key::Char(c) => {
                    self.type_char(c);
                    Action::Nothing
                },
                Key::Backspace => {
                    self.erase_char();
                    Action::Nothing
                },
                _ => Action::Nothing,
            },
        }
    }
}

} // verus!
