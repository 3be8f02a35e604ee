//! Verified cores of a small family of text-stream utilities.
//!
//! The heart of the crate is [`headr`]: the bounded extraction of the front
//! of a stream, counted in bytes or in lines, from the start or from the
//! end, over one source or many. Around it stand the cores of four smaller
//! tools: [`catr`] copies lines, [`echor`] writes its arguments, [`findr`]
//! chooses the entries of a directory tree, and [`wcr`] counts.
//!
//! Nothing here opens a file or writes to a terminal. Every function takes
//! plain values and gives plain values back, and says in its contract
//! exactly which.

pub mod catr;
pub mod echor;
pub mod findr;
pub mod headr;
pub mod text;
pub mod wcr;
