//! A file tagger's library: reading search queries and writing the SQL that
//! answers them, the statements of the tag database and the decisions
//! between them, which entries of a directory tree are indexed, and the
//! terminal interface as a state machine over keys.

pub mod text;
pub mod search;
pub mod tui;
pub mod scanner;
pub mod db;
pub mod cli;
pub mod layout;
