//! Counting the lines, words, characters and bytes of text.

pub mod config;
pub mod counter;
pub mod tally;

pub use config::{get_args, Config};
