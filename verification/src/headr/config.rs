//! The configuration of a run: the policy, the banner decision, and the
//! sources in the order they were named.

use crate::headr::header::{banners_shown, decide};
use crate::headr::policy::{
    parsed_policy, ExtractionPolicy, HeadKind, InvalidCount, PolicyModel, Sign,
};
use crate::text::strings::chars_of;
use vstd::prelude::*;

verus! {

/// What a configuration says, as mathematics. A source is the text of a
/// path, or `None` for standard input.
pub struct ConfigModel {
    pub policy: PolicyModel,
    pub print_headers: bool,
    pub sources: Seq<Option<Seq<char>>>,
}

/// A source as mathematics: the text of its path, or `None` for standard
/// input.
pub open spec fn source_model(source: Option<String>) -> Option<Seq<char>> {
    match source {
        Some(path) => Some(path@),
        None => None,
    }
}

/// The sources of a list as mathematics, in the same order.
pub open spec fn source_models(files: Seq<Option<String>>) -> Seq<Option<Seq<char>>> {
    Seq::new(files.len(), |i: int| source_model(files[i]))
}

/// The source that a name on the command line stands for: standard input
/// for a single dash, and the path of that name otherwise.
pub open spec fn named_source(name: Seq<char>) -> Option<Seq<char>> {
    if name == seq!['-'] {
        None
    } else {
        Some(name)
    }
}

/// The sources that a list of names stands for: one per name, in order, and
/// standard input alone if no name is given.
pub open spec fn named_sources(names: Seq<String>) -> Seq<Option<Seq<char>>> {
    if names.len() == 0 {
        seq![None]
    } else {
        Seq::new(names.len(), |i: int| named_source(names[i]@))
    }
}

/// The policy asked for by an optional count argument: the default of ten
/// lines from the front without one.
pub open spec fn requested_policy(count: Option<(HeadKind, String)>) -> Option<PolicyModel> {
    match count {
        Some((unit, token)) => parsed_policy(unit, token@),
        None => Some(PolicyModel { unit: HeadKind::Lines, magnitude: 10, sign: Sign::Positive }),
    }
}

/// Everything a run needs to know.
pub struct Config {
    policy: ExtractionPolicy,
    print_headers: bool,
    files: Vec<Option<String>>,
}

impl View for Config {
    type V = ConfigModel;

    closed spec fn view(&self) -> ConfigModel {
        ConfigModel {
            policy: self.policy@,
            print_headers: self.print_headers,
            sources: source_models(self.files@),
        }
    }
}

/// Whether `name` is the single dash that stands for standard input.
fn is_dash(name: &str) -> (dash: bool)
    ensures
        dash == (name@ == seq!['-']),
{
    let chars = chars_of(name);
    let dash = chars.len() == 1 && chars[0] == '-';
    proof {
        if dash {
            assert(name@ =~= seq!['-']);
        }
    }
    dash
}

impl Config {
    /// A configuration of exactly these parts.
    pub fn new(policy: ExtractionPolicy, print_headers: bool, files: Vec<Option<String>>) -> (config:
        Self)
        ensures
            config@ == (ConfigModel {
                policy: policy@,
                print_headers,
                sources: source_models(files@),
            }),
    {
        Config { policy, print_headers, files }
    }

    /// The policy of the run.
    pub fn policy(&self) -> (policy: &ExtractionPolicy)
        ensures
            policy@ == self@.policy,
    {
        &self.policy
    }

    /// Whether each source is announced by a banner.
    pub fn print_headers(&self) -> (shown: bool)
        ensures
            shown == self@.print_headers,
    {
        self.print_headers
    }

    /// The sources, in the order they were named; `None` is standard input.
    pub fn files(&self) -> (files: &Vec<Option<String>>)
        ensures
            source_models(files@) == self@.sources,
    {
        &self.files
    }
}

/// Builds the configuration from what the command line gave: at most one
/// count argument with its unit, the two banner flags, and the names of
/// the sources.
///
/// Without a count the policy is the default. A count that is not of the
/// form `[-]NUM`, or is out of range, is the only error. Banners follow
/// the flags and the number of sources. A name that is a single dash
/// stands for standard input, and so does an empty list of names.
pub fn get_args(
    count: Option<(HeadKind, String)>,
    verbose: bool,
    quiet: bool,
    names: &Vec<String>,
) -> (r: Result<Config, InvalidCount>)
    ensures
        match r {
            Ok(config) => {
                &&& requested_policy(count) == Some(config@.policy)
                &&& config@.policy.consistent()
                &&& config@.sources == named_sources(names@)
                &&& config@.print_headers == banners_shown(
                    verbose,
                    quiet,
                    config@.sources.len(),
                )
            },
            Err(e) => {
                &&& requested_policy(count) is None
                &&& count matches Some((unit, token))
                &&& e.unit == unit
                &&& e.token@ == token@
            },
        },
{
    let policy = match &count {
        Some((unit, token)) => match ExtractionPolicy::parse(*unit, token.as_str()) {
            Ok(policy) => policy,
            Err(e) => {
                return Err(e);
            },
        },
        None => ExtractionPolicy::default(),
    };
    let mut files: Vec<Option<String>> = Vec::new();
    if names.len() == 0 {
        files.push(None);
        assert(source_models(files@) =~= named_sources(names@));
    } else {
        let mut i: usize = 0;
        while i < names.len()
            invariant
                i <= names.len(),
                files.len() == i,
                forall|j: int|
                    0 <= j < i ==> source_model(#[trigger] files@[j]) == named_source(
                        names@[j]@,
                    ),
            decreases names.len() - i,
        {
            if is_dash(names[i].as_str()) {
                files.push(None);
            } else {
                files.push(Some(names[i].clone()));
            }
            i = i + 1;
        }
        assert(source_models(files@) =~= named_sources(names@));
    }
    let print_headers = decide(verbose, quiet, files.len());
    Ok(Config { policy, print_headers, files })
}

} // verus!
