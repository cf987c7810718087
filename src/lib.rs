//! A reactive task list: a collection of todo items, the state of the page
//! around it, and the per-row editing state machine.

pub mod entry;
pub mod state;
pub mod todos;
