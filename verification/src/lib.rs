//! A heap oracle: it follows the heap events of a traced program, knows the state of
//! every chunk, and flags frees and reallocations of memory that was not allocated.

pub mod cli;
pub mod ipc;
pub mod labels;
pub mod laws;
pub mod listing;
pub mod model;
pub mod panel;
pub mod plain;
pub mod replay;
pub mod report;
pub mod runtime;
pub mod said;
pub mod state;
pub mod text;
pub mod words;
