//! Verified core of a small backup tool: command-line parsing, backup path
//! construction and file selection.
pub mod text;
pub mod number;
pub mod clock;
pub mod paths;
pub mod select;
pub mod args;
pub mod help;
