//! Beads (`bd`) board logic for the cmux right sidebar: argv builders for
//! `bd` and `cmux`, board filtering and grouping, the status-pill projection,
//! the assignee encoding, and the keyboard state machine of the fallback TUI.

pub mod app;
pub mod bd;
pub mod cli;
pub mod cwd;
pub mod form;
pub mod host;
pub mod install;
pub mod board;
pub mod json;
pub mod keys;
pub mod plugin;
pub mod project;
pub mod sessions;
pub mod sync;
pub mod text;
pub mod ui;
