//! View-state engine of a two-pane flashcard viewer.
//!
//! A vocabulary file is split into a prompt side and a detail side, each with
//! a line for every line of the file; a small state machine scrolls both
//! sides together, hides one of them and moves the border between them.

pub mod document;
pub mod event;
pub mod lines;
pub mod program;
pub mod render;
pub mod scroll;
