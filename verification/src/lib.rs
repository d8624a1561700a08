//! Verified core of a keyboard-driven todo.txt terminal UI: key chords and
//! keymaps, configuration, pane and selection state, pickers and ranking.

pub mod actions;
pub mod app;
pub mod commands;
pub mod config;
pub mod define;
pub mod editor;
pub mod edits;
pub mod filtering;
pub mod history;
pub mod keys;
pub mod laws;
pub mod modes;
pub mod nav;
pub mod order;
pub mod pane_list;
pub mod panes;
pub mod pickers;
pub mod quick;
pub mod rebuild;
pub mod select;
pub mod selection;
pub mod state;
pub mod status;
pub mod task;
pub mod text;
pub mod theme;
