//! Filtering and traversal engine for dumping the files of a directory tree.

pub mod path;
pub mod matchers;
pub mod text;
pub mod config;
pub mod errors;
pub mod sniff;
pub mod filter;
pub mod order;
pub mod walker;
pub mod printer;
