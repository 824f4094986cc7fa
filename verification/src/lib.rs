//! gim: a terminal UI for managing git branches.
//!
//! The library holds the program's logic: key bindings and their parsing,
//! the line editor, the application state machine that turns key presses
//! and git replies into the next git call, and the merge / rebase procedures.
//! The binary around it performs the git calls and draws the screen.

pub mod app;
pub mod config;
pub mod git;
pub mod input;
pub mod ops;
pub mod text;
pub mod ui;
