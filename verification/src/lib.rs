//! grove: the verified core of a terminal UI for git repositories and
//! their worktrees.  Everything that decides what the UI shows or what a
//! key press does lives here; the terminal, the PTYs, git and the network
//! are driven by the binary around this library.

pub mod model;
pub mod text;
pub mod idmap;
pub mod flags;
pub mod config;
pub mod state;
pub mod activity;
pub mod git;
pub mod text_input;
pub mod theme;
pub mod terminals;
pub mod modals;
pub mod app;
pub mod dialogs;
pub mod reconcile;
pub mod session;
pub mod repos;
pub mod commands;
pub mod flows;
pub mod dispatch;
pub mod github;
pub mod keys;
pub mod view;
pub mod diffview;
pub mod scanview;
pub mod wrap;
pub mod pathinput;
pub mod startup;
