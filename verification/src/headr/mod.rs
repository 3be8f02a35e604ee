//! Bounded extraction of the front of a stream, in bytes or in lines.

pub mod config;
pub mod extract;
pub mod header;
pub mod laws;
pub mod lines;
pub mod policy;
pub mod runner;

pub use config::{get_args, Config};
pub use runner::run;
