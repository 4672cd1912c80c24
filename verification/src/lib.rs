//! A tmux window and session switcher: the window list, favorites, the
//! native picker's state machine, and the command lines it hands to tmux
//! and fzf, with their contracts.

pub mod args;
pub mod commands;
pub mod config;
pub mod fzf;
pub mod text;
pub mod tmux;
pub mod utils;
pub mod picker;
