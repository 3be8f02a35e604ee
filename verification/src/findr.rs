//! Choosing the entries of a directory tree by their kind and by their
//! name.

use regex::Regex;
use vstd::prelude::*;

verus! {

/// A compiled regular expression of the `regex` crate. Verus sees nothing
/// inside it; it is only handed on to the matcher.
#[verifier::external_type_specification]
#[verifier::external_body]
pub struct ExRegex(regex::Regex);

/// Whether the regular expression `re` matches anywhere in `haystack`:
/// what `Regex::is_match` of the `regex` crate returns for the two.
pub uninterp spec fn regex_accepts(re: Regex, haystack: Seq<char>) -> bool;

/// Tests whether `re` matches anywhere in `haystack`.
///
/// Stands for `Regex::is_match`, which returns true if and only if there is
/// a match for the regex anywhere in the haystack given. The answer depends
/// on the expression and the haystack alone, and is named
/// [`regex_accepts`].
#[verifier::external_body]
fn is_match(re: &Regex, haystack: &str) -> (found: bool)
    ensures
        found == regex_accepts(*re, haystack@),
{
    re.is_match(haystack)
}

/// A kind of entry to look for.
#[derive(Clone, Copy, Debug, PartialEq, Eq, Structural)]
pub enum EntryType {
    Dir,
    File,
    Link,
}

/// What is known of an entry's kind. The three are told apart by the file
/// system, and at most one of them holds.
#[derive(Clone, Copy, Debug, PartialEq, Eq, Structural)]
pub struct EntryKind {
    pub is_file: bool,
    pub is_symlink: bool,
    pub is_dir: bool,
}

/// The kind of entry that a type letter on the command line stands for.
pub open spec fn type_of_letter(letter: Seq<char>) -> Option<EntryType> {
    if letter == seq!['f'] {
        Some(EntryType::File)
    } else if letter == seq!['d'] {
        Some(EntryType::Dir)
    } else if letter == seq!['l'] {
        Some(EntryType::Link)
    } else {
        None
    }
}

/// Whether an entry of kind `kind` is of the type `wanted`.
pub open spec fn is_of_type(kind: EntryKind, wanted: EntryType) -> bool {
    match wanted {
        EntryType::File => kind.is_file,
        EntryType::Link => kind.is_symlink,
        EntryType::Dir => kind.is_dir,
    }
}

/// Whether an entry of kind `kind` is of one of the types listed.
pub open spec fn is_of_any_type(kind: EntryKind, types: Seq<EntryType>) -> bool {
    exists|i: int| 0 <= i < types.len() && is_of_type(kind, #[trigger] types[i])
}

/// Whether an entry of kind `kind` passes the filter on types: there is no
/// such filter, or the entry is of one of the types it lists.
pub open spec fn type_passes(kind: EntryKind, entry_types: Option<Vec<EntryType>>) -> bool {
    match entry_types {
        Some(types) => is_of_any_type(kind, types@),
        None => true,
    }
}

/// Whether one of the expressions `names` matches in `file_name`.
pub open spec fn name_passes(names: Seq<Regex>, file_name: Seq<char>) -> bool {
    exists|i: int| 0 <= i < names.len() && regex_accepts(#[trigger] names[i], file_name)
}

/// What to look for, and where.
pub struct Config {
    pub names: Vec<Regex>,
    pub entry_types: Option<Vec<EntryType>>,
    pub paths: Vec<String>,
}

/// Reads a type letter: `f` for files, `d` for directories, `l` for links.
pub fn entry_type(letter: &str) -> (r: Option<EntryType>)
    ensures
        r == type_of_letter(letter@),
{
    let chars = crate::text::strings::chars_of(letter);
    if chars.len() != 1 {
        return None;
    }
    let r = if chars[0] == 'f' {
        Some(EntryType::File)
    } else if chars[0] == 'd' {
        Some(EntryType::Dir)
    } else if chars[0] == 'l' {
        Some(EntryType::Link)
    } else {
        None
    };
    proof {
        assert(letter@ =~= seq![chars@[0]]);
    }
    r
}

/// Builds the configuration from what the command line gave: the compiled
/// name expressions, the type letters if any were given, and the paths to
/// search.
///
/// Every type letter has to be one of `f`, `d` and `l`.
pub fn get_args(names: Vec<Regex>, types: Option<Vec<String>>, paths: Vec<String>) -> (config:
    Config)
    requires
        types matches Some(letters) ==> forall|i: int|
            0 <= i < letters@.len() ==> type_of_letter(#[trigger] letters@[i]@) is Some,
    ensures
        config.names == names,
        config.paths == paths,
        match types {
            Some(letters) => {
                &&& config.entry_types matches Some(found)
                &&& found@.len() == letters@.len()
                &&& forall|i: int|
                    0 <= i < letters@.len() ==> Some(#[trigger] found@[i]) == type_of_letter(
                        letters@[i]@,
                    )
            },
            None => config.entry_types is None,
        },
{
    let entry_types = match types {
        Some(letters) => {
            let mut found: Vec<EntryType> = Vec::new();
            let mut i: usize = 0;
            while i < letters.len()
                invariant
                    i <= letters.len(),
                    found.len() == i,
                    forall|j: int|
                        0 <= j < letters@.len() ==> type_of_letter(#[trigger] letters@[j]@)
                            is Some,
                    forall|j: int|
                        0 <= j < i ==> Some(#[trigger] found@[j]) == type_of_letter(letters@[j]@),
                decreases letters.len() - i,
            {
                match entry_type(letters[i].as_str()) {
                    Some(t) => found.push(t),
                    None => {},
                }
                i = i + 1;
            }
            Some(found)
        },
        None => None,
    };
    Config { names, entry_types, paths }
}

impl Config {
    /// Whether an entry of kind `kind` passes the filter on types.
    pub fn type_selected(&self, kind: EntryKind) -> (passes: bool)
        ensures
            passes == type_passes(kind, self.entry_types),
    {
        match &self.entry_types {
            Some(types) => {
                let mut i: usize = 0;
                while i < types.len()
                    invariant
                        i <= types.len(),
                        self.entry_types == Some(*types),
                        forall|j: int| 0 <= j < i ==> !is_of_type(kind, #[trigger] types@[j]),
                    decreases types.len() - i,
                {
                    let hit = match types[i] {
                        EntryType::File => kind.is_file,
                        EntryType::Link => kind.is_symlink,
                        EntryType::Dir => kind.is_dir,
                    };
                    if hit {
                        assert(is_of_type(kind, types@[i as int]));
                        return true;
                    }
                    i = i + 1;
                }
                false
            },
            None => true,
        }
    }

    /// Whether one of the name expressions matches in `file_name`.
    pub fn name_selected(&self, file_name: &str) -> (passes: bool)
        ensures
            passes == name_passes(self.names@, file_name@),
    {
        let mut i: usize = 0;
        while i < self.names.len()
            invariant
                i <= self.names.len(),
                forall|j: int| 0 <= j < i ==> !regex_accepts(#[trigger] self.names@[j], file_name@),
            decreases self.names.len() - i,
        {
            if is_match(&self.names[i], file_name) {
                return true;
            }
            i = i + 1;
        }
        false
    }

    /// Whether an entry is to be printed: it passes the filter on types, and
    /// one of the name expressions matches in its file name.
    pub fn selects(&self, kind: EntryKind, file_name: &str) -> (chosen: bool)
        ensures
            chosen == (type_passes(kind, self.entry_types) && name_passes(self.names@, file_name@)),
    {
        self.type_selected(kind) && self.name_selected(file_name)
    }
}

} // verus!
