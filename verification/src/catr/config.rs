//! What is done to each line on its way to the output.

use vstd::prelude::*;

verus! {

/// Which lines are numbered.
#[derive(Clone, Copy, Debug, PartialEq, Eq, Structural)]
pub enum LineNumbers {
    /// None.
    Omit,
    /// Every line.
    Include,
    /// Every line that is not empty.
    OnlyNonEmpty,
}

/// The numbering asked for by the two numbering flags: numbering of the
/// lines that are not empty overrides numbering of all lines.
pub open spec fn numbering(number_nonblank: bool, number: bool) -> LineNumbers {
    if number_nonblank {
        LineNumbers::OnlyNonEmpty
    } else if number {
        LineNumbers::Include
    } else {
        LineNumbers::Omit
    }
}

/// The configuration of a run.
#[derive(Debug, PartialEq, Eq)]
pub struct Config {
    pub show_ends: bool,
    pub line_numbers: LineNumbers,
    pub squeeze_blank: bool,
    pub input: Vec<String>,
}

impl Config {
    /// Builds the configuration from what the command line gave: the four
    /// flags, and the names of the inputs in order.
    pub fn new(
        number_nonblank: bool,
        show_ends: bool,
        number: bool,
        squeeze_blank: bool,
        input: Vec<String>,
    ) -> (config: Self)
        ensures
            config.show_ends == show_ends,
            config.line_numbers == numbering(number_nonblank, number),
            config.squeeze_blank == squeeze_blank,
            config.input == input,
    {
        let line_numbers = if number_nonblank {
            LineNumbers::OnlyNonEmpty
        } else if number {
            LineNumbers::Include
        } else {
            LineNumbers::Omit
        };
        Config { show_ends, line_numbers, squeeze_blank, input }
    }
}

} // verus!
