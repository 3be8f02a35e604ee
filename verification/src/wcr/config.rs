//! Which counts are shown, and which files are counted.

use crate::text::strings::chars_of;
use vstd::prelude::*;

verus! {

/// The counts to show.
#[derive(Clone, Copy, Debug, PartialEq, Eq, Structural)]
pub struct Config {
    pub bytes: bool,
    pub chars: bool,
    pub lines: bool,
    pub words: bool,
}

impl Config {
    /// What is shown when nothing is selected: lines, words and bytes.
    pub fn default() -> (config: Self)
        ensures
            config == (Config { bytes: true, chars: false, lines: true, words: true }),
    {
        Config { bytes: true, chars: false, lines: true, words: true }
    }
}

/// The counts to show for the given flags: those that are selected, or the
/// default set if none is.
pub open spec fn selected_config(bytes: bool, chars: bool, lines: bool, words: bool) -> Config {
    if bytes || chars || lines || words {
        Config { bytes, chars, lines, words }
    } else {
        Config { bytes: true, chars: false, lines: true, words: true }
    }
}

/// The file that a name on the command line stands for: standard input,
/// written `None`, for a single dash, and the path of that name otherwise.
pub open spec fn named_file(name: Seq<char>) -> Option<Seq<char>> {
    if name == seq!['-'] {
        None
    } else {
        Some(name)
    }
}

/// The path of a file, or `None` for standard input, as mathematics.
pub open spec fn file_model(file: Option<String>) -> Option<Seq<char>> {
    match file {
        Some(path) => Some(path@),
        None => None,
    }
}

/// The name under which a file is shown in the table: its path, or a dash
/// for standard input.
pub open spec fn shown_name(file: Option<Seq<char>>) -> Seq<char> {
    match file {
        Some(path) => path,
        None => seq!['-'],
    }
}

/// Builds the configuration and the list of files from what the command
/// line gave: the four selection flags and the names of the files.
///
/// The counts shown are the selected ones, or the default set if none is
/// selected. Each name gives one file, in order; a single dash stands for
/// standard input.
pub fn get_args(bytes: bool, chars: bool, lines: bool, words: bool, names: &Vec<String>) -> (r: (
    Config,
    Vec<Option<String>>,
))
    ensures
        r.0 == selected_config(bytes, chars, lines, words),
        r.1@.len() == names@.len(),
        forall|i: int|
            0 <= i < names@.len() ==> file_model(#[trigger] r.1@[i]) == named_file(names@[i]@),
{
    let config = if bytes || chars || lines || words {
        Config { bytes, chars, lines, words }
    } else {
        Config::default()
    };
    let mut files: Vec<Option<String>> = Vec::new();
    let mut i: usize = 0;
    while i < names.len()
        invariant
            i <= names.len(),
            files.len() == i,
            forall|j: int|
                0 <= j < i ==> file_model(#[trigger] files@[j]) == named_file(names@[j]@),
        decreases names.len() - i,
    {
        let chars_of_name = chars_of(names[i].as_str());
        if chars_of_name.len() == 1 && chars_of_name[0] == '-' {
            assert(names@[i as int]@ =~= seq!['-']);
            files.push(None);
        } else {
            files.push(Some(names[i].clone()));
        }
        i = i + 1;
    }
    (config, files)
}

/// The name under which `file` is shown in the table.
pub fn display_name(file: &Option<String>) -> (name: String)
    ensures
        name@ == shown_name(file_model(*file)),
{
    match file {
        Some(path) => path.clone(),
        None => {
            proof {
                reveal_strlit("-");
                assert("-"@ =~= seq!['-']);
            }
            "-".to_owned()
        },
    }
}

} // verus!
