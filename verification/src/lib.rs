//! The core of an interactive shell front-end: a line buffer with a cursor, a
//! byte-level line editor for a terminal in raw mode, and the tokenizer and
//! expanders that turn a finished line into an argument vector.
//!
//! Nothing in this crate reads the terminal, the process environment or the
//! user database. The editor is a transition function from a state and a byte
//! to the next state and the bytes to send back; variables and home
//! directories are handed in as a [`table::Table`].

pub mod argv;
pub mod buffer;
pub mod command;
pub mod display;
pub mod environment;
pub mod expand_parameter;
pub mod field;
pub mod reader;
pub mod session;
pub mod table;
pub mod text;
pub mod tilde;
