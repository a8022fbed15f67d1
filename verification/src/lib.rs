//! Navigation state of a personal note vault.
//!
//! A vault is a directory of notes. The directories in its root are the
//! categories, a category may hold subfolders, and the files in a category or
//! a subfolder are the notes. [`state::VaultState`] mirrors one category, its
//! subfolders and the notes of one directory in three lists, keeps a cursor
//! in each, and says for every key press what becomes of the state and what
//! is to be done to the vault.
//!
//! The library itself reads and writes nothing. Its caller hands it what the
//! directories hold ([`state::VaultState::refresh`]), feeds it the keys
//! ([`state::VaultState::handle_key`]) and carries out the
//! [`action::Action`] that comes back. What a state is and what each
//! transition makes of it is defined over plain values in [`model`]; [`laws`]
//! holds what follows from that for every vault and every input.

pub mod action;
pub mod cursor;
pub mod display;
pub mod filter;
pub mod keys;
pub mod laws;
pub mod listing;
pub mod model;
pub mod names;
pub mod setup;
pub mod state;
pub mod stats;
pub mod sync;
pub mod text;
