//! The printer: what becomes of each line, given the lines before it.

use crate::catr::config::{Config, LineNumbers};
use crate::text::decimal::{padded_decimal, push_padded_decimal};
use vstd::prelude::*;

verus! {

/// The width of the field that holds a line number.
pub const NUMBER_WIDTH: usize = 6;

/// What the printer remembers from one line to the next: the number of the
/// last numbered line, which runs on from file to file, and whether the line
/// before this one, in the same file, was empty.
#[derive(Clone, Copy, Debug, PartialEq, Eq, Structural)]
pub struct Printer {
    pub line_number: usize,
    pub previous_line_empty: bool,
}

/// Whether `line` is left out: empty lines are squeezed, and it is empty
/// and follows an empty line.
pub open spec fn squeezed(config: Config, printer: Printer, line: Seq<char>) -> bool {
    config.squeeze_blank && printer.previous_line_empty && line.len() == 0
}

/// Whether `line` gets a number.
pub open spec fn numbered(config: Config, line: Seq<char>) -> bool {
    match config.line_numbers {
        LineNumbers::Omit => false,
        LineNumbers::Include => true,
        LineNumbers::OnlyNonEmpty => line.len() > 0,
    }
}

/// The text written for `line`, if it is not left out: its number in a field
/// of six with a tab after it, if it gets one; the line; and a dollar sign
/// if ends are shown.
pub open spec fn printed(config: Config, printer: Printer, line: Seq<char>) -> Option<Seq<char>> {
    if squeezed(config, printer, line) {
        None
    } else {
        let start = if numbered(config, line) {
            padded_decimal((printer.line_number + 1) as nat, NUMBER_WIDTH as nat) + "\t"@
        } else {
            Seq::empty()
        };
        let end = if config.show_ends {
            "$"@
        } else {
            Seq::empty()
        };
        Some(start + line + end)
    }
}

/// What the printer remembers after `line`.
pub open spec fn after_line(config: Config, printer: Printer, line: Seq<char>) -> Printer {
    if squeezed(config, printer, line) {
        printer
    } else {
        Printer {
            line_number: if numbered(config, line) {
                (printer.line_number + 1) as usize
            } else {
                printer.line_number
            },
            previous_line_empty: if config.squeeze_blank {
                line.len() == 0
            } else {
                printer.previous_line_empty
            },
        }
    }
}

impl Printer {
    /// A printer before the first line of the first file.
    pub fn new() -> (printer: Self)
        ensures
            printer == (Printer { line_number: 0, previous_line_empty: false }),
    {
        Printer { line_number: 0, previous_line_empty: false }
    }

    /// Starts the next file: the numbering runs on, and no line of this
    /// file has been seen yet.
    pub fn start_file(&mut self)
        ensures
            *final(self) == (Printer { previous_line_empty: false, ..*old(self) }),
    {
        self.previous_line_empty = false;
    }

    /// Whether one more line can be numbered: whether
    /// [`Printer::print_line`] may be called with a line that gets a number.
    pub fn has_room(&self) -> (room: bool)
        ensures
            room == (self.line_number < usize::MAX),
    {
        self.line_number < usize::MAX
    }

    /// Takes the next line of the current file, without its terminator, and
    /// gives the text to write for it, or `None` if the line is left out.
    pub fn print_line(&mut self, config: &Config, line: &str) -> (text: Option<String>)
        requires
            numbered(*config, line@) ==> old(self).line_number < usize::MAX,
        ensures
            *final(self) == after_line(*config, *old(self), line@),
            match text {
                Some(written) => printed(*config, *old(self), line@) == Some(written@),
                None => printed(*config, *old(self), line@) is None,
            },
    {
        let empty = line.is_empty();
        if config.squeeze_blank {
            if self.previous_line_empty && empty {
                return None;
            }
            self.previous_line_empty = empty;
        }
        let mut text = String::new();
        let number = match config.line_numbers {
            LineNumbers::Omit => false,
            LineNumbers::Include => true,
            LineNumbers::OnlyNonEmpty => !empty,
        };
        if number {
            self.line_number = self.line_number + 1;
            push_padded_decimal(&mut text, self.line_number, NUMBER_WIDTH);
            text.append("\t");
        }
        text.append(line);
        if config.show_ends {
            text.append("$");
        }
        Some(text)
    }
}

} // verus!
