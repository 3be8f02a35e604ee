//! Copying text line by line, with optional line numbers, end marks, and
//! squeezing of repeated empty lines.

pub mod config;
pub mod printer;

pub use config::Config;
