//! Line search over text: reading the search parameters from the command
//! line, splitting text into lines, and keeping the lines that contain a
//! query, with or without regard to case.

pub mod config;
pub mod lines;
pub mod search;
pub mod text;
