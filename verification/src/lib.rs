//! Saving, undo and compaction of text documents that may be far larger than
//! memory is comfortable with.
//!
//! The crate performs no input or output. Where an operation reaches the edge
//! of the process (the session sidecar, the saved file, a text codec), it calls
//! a function that its caller hands in, and its contract says what that
//! function is given and what follows from each of its answers.

pub mod compaction;
pub mod document;
pub mod encoding;
pub mod error;
pub mod laws;
pub mod parts;
pub mod path;
pub mod persistence;
pub mod piece_table;
pub mod rope;
mod shared;
pub mod storage;
pub mod stream;
pub mod text;
