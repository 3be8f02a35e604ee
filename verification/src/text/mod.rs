//! Text helpers shared by the utilities: decimal numerals, the characters
//! of a string, and decoding for display.

pub mod decimal;
pub mod strings;
