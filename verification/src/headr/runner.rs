//! The runner: takes the sources one by one, in order, and says for each
//! what goes to the output and what to the error channel.
//!
//! The runner opens and reads nothing itself. It names the next source and
//! how much of it to read, is told what came of that, and answers with the
//! text to write. A source that fails is reported and skipped; the sources
//! after it are processed as if nothing had happened, and only the final
//! status remembers.

use crate::headr::config::{Config, ConfigModel};
use crate::headr::extract::{extract, extracted, plan_for, read_plan, ReadPlan};
use crate::headr::header::{banner, banner_text, separator_text};
use crate::text::strings::{decode_lossy, lossy_text};
use vstd::prelude::*;
use vstd::utf8::{decode_utf8, valid_utf8};

verus! {

/// Why a source gave no content. Each kind carries the underlying cause as
/// text.
#[derive(Debug, PartialEq, Eq)]
pub enum SourceError {
    /// The source could not be opened.
    Open(String),
    /// The source was opened, but reading it failed.
    Read(String),
}

/// What came of opening and reading one source: the bytes that were read,
/// or the failure.
pub type SourceResult = Result<Vec<u8>, SourceError>;

/// What came of one source, as mathematics.
pub enum Outcome {
    Content(Seq<u8>),
    OpenFailed(Seq<char>),
    ReadFailed(Seq<char>),
}

/// The outcome that a source result stands for.
pub open spec fn outcome_of(result: SourceResult) -> Outcome {
    match result {
        Ok(data) => Outcome::Content(data@),
        Err(SourceError::Open(cause)) => Outcome::OpenFailed(cause@),
        Err(SourceError::Read(cause)) => Outcome::ReadFailed(cause@),
    }
}

/// The outcomes that a list of source results stands for.
pub open spec fn outcomes_of(results: Seq<SourceResult>) -> Seq<Outcome> {
    Seq::new(results.len(), |i: int| outcome_of(results[i]))
}

/// The name under which a source is shown: its path, and the empty name for
/// standard input.
pub open spec fn shown_name(source: Option<Seq<char>>) -> Seq<char> {
    match source {
        Some(path) => path,
        None => Seq::empty(),
    }
}

/// What is written to the output for the source at `index`.
///
/// A source that could not be opened writes nothing. One that was opened
/// writes its banner if banners are shown, then what the policy keeps of its
/// content, decoded for display, or nothing if reading failed; and then,
/// if banners are shown and more sources follow, one blank line.
pub open spec fn source_text(config: ConfigModel, index: int, outcome: Outcome) -> Seq<char> {
    let heading = if config.print_headers {
        banner_text(shown_name(config.sources[index]))
    } else {
        Seq::empty()
    };
    let closing = if config.print_headers && index + 1 < config.sources.len() {
        separator_text()
    } else {
        Seq::empty()
    };
    match outcome {
        Outcome::OpenFailed(_) => Seq::empty(),
        Outcome::ReadFailed(_) => heading + closing,
        Outcome::Content(s) => heading + lossy_text(extracted(config.policy, s)) + closing,
    }
}

/// The diagnostic for the source at `index`, if it failed: it names the
/// source and gives the cause.
pub open spec fn source_diagnostic(config: ConfigModel, index: int, outcome: Outcome) -> Option<
    Seq<char>,
> {
    match outcome {
        Outcome::OpenFailed(cause) => Some(
            "Failed to open "@ + shown_name(config.sources[index]) + ": "@ + cause,
        ),
        Outcome::ReadFailed(cause) => Some(
            "Failed to read "@ + shown_name(config.sources[index]) + ": "@ + cause,
        ),
        Outcome::Content(_) => None,
    }
}

/// What the runner asks for next: the source at `index`, read as far as
/// `plan` says.
#[derive(Clone, Copy, Debug, PartialEq, Eq, Structural)]
pub struct Request {
    pub index: usize,
    pub plan: ReadPlan,
}

/// What to write once a source is dealt with: text for the output, and a
/// diagnostic line for the error channel if the source failed.
#[derive(Debug, PartialEq, Eq)]
pub struct Emission {
    pub stdout: String,
    pub diagnostic: Option<String>,
}

/// The state of a runner, as mathematics: how many sources are dealt with,
/// and whether any of them failed.
pub struct RunnerModel {
    pub config: ConfigModel,
    pub position: nat,
    pub failed: bool,
}

impl RunnerModel {
    /// Whether every source has been dealt with.
    pub open spec fn finished(self) -> bool {
        self.position >= self.config.sources.len()
    }

    /// The state after the source at the current position came out as
    /// `outcome`. Once the run is finished, nothing changes any more.
    pub open spec fn after(self, outcome: Outcome) -> RunnerModel {
        if self.finished() {
            self
        } else {
            RunnerModel {
                config: self.config,
                position: self.position + 1,
                failed: self.failed || !(outcome is Content),
            }
        }
    }
}

/// A run in progress.
pub struct Runner {
    config: Config,
    position: usize,
    failed: bool,
}

impl View for Runner {
    type V = RunnerModel;

    closed spec fn view(&self) -> RunnerModel {
        RunnerModel { config: self.config@, position: self.position as nat, failed: self.failed }
    }
}

impl Runner {
    /// Starts a run: no source is dealt with yet, and nothing has failed.
    pub fn new(config: Config) -> (runner: Self)
        ensures
            runner@ == (RunnerModel { config: config@, position: 0, failed: false }),
    {
        Runner { config, position: 0, failed: false }
    }

    /// The configuration of this run.
    pub fn config(&self) -> (config: &Config)
        ensures
            config@ == self@.config,
    {
        &self.config
    }

    /// The next source to open and how much of it to read, or `None` once
    /// every source is dealt with.
    pub fn pending(&self) -> (request: Option<Request>)
        ensures
            request == if self@.finished() {
                None
            } else {
                Some(
                    Request {
                        index: self@.position as usize,
                        plan: plan_for(self@.config.policy),
                    },
                )
            },
    {
        if self.position < self.config.files().len() {
            Some(Request { index: self.position, plan: read_plan(self.config.policy()) })
        } else {
            None
        }
    }

    /// Takes what came of the pending source and says what to write for it.
    ///
    /// The emission is exactly the text and the diagnostic of that source,
    /// and the runner moves on to the next one; a failure is remembered for
    /// the final status. With no source pending, nothing is written and
    /// nothing changes.
    pub fn accept(&mut self, result: SourceResult) -> (emission: Emission)
        ensures
            final(self)@ == old(self)@.after(outcome_of(result)),
            old(self)@.finished() ==> emission.stdout@ == Seq::<char>::empty()
                && emission.diagnostic is None,
            !old(self)@.finished() ==> {
                &&& emission.stdout@ == source_text(
                    old(self)@.config,
                    old(self)@.position as int,
                    outcome_of(result),
                )
                &&& match emission.diagnostic {
                    Some(line) => Some(line@),
                    None => None,
                } == source_diagnostic(
                    old(self)@.config,
                    old(self)@.position as int,
                    outcome_of(result),
                )
            },
            !old(self)@.finished() ==> (outcome_of(result) matches Outcome::Content(s) ==> {
                let kept = extracted(old(self)@.config.policy, s);
                valid_utf8(kept) ==> lossy_text(kept) == decode_utf8(kept)
            }),
    {
        let mut stdout = String::new();
        let count = self.config.files().len();
        if self.position >= count {
            return Emission { stdout, diagnostic: None };
        }
        let index = self.position;
        let name: &str = match &self.config.files()[index] {
            Some(path) => path.as_str(),
            None => "",
        };
        proof {
            reveal_strlit("");
            assert(name@ =~= shown_name(self@.config.sources[index as int]));
        }
        let headers = self.config.print_headers();
        let more = index + 1 < count;
        let diagnostic = match result {
            Ok(data) => {
                if headers {
                    stdout.append(banner(name).as_str());
                }
                let kept = extract(self.config.policy(), data.as_slice());
                stdout.append(decode_lossy(kept.as_slice()).as_str());
                if headers && more {
                    stdout.append("\n");
                }
                None
            },
            Err(SourceError::Open(cause)) => {
                let mut line = String::new();
                line.append("Failed to open ");
                line.append(name);
                line.append(": ");
                line.append(cause.as_str());
                Some(line)
            },
            Err(SourceError::Read(cause)) => {
                if headers {
                    stdout.append(banner(name).as_str());
                }
                if headers && more {
                    stdout.append("\n");
                }
                let mut line = String::new();
                line.append("Failed to read ");
                line.append(name);
                line.append(": ");
                line.append(cause.as_str());
                Some(line)
            },
        };
        let failed = self.failed || diagnostic.is_some();
        self.position = index + 1;
        self.failed = failed;
        Emission { stdout, diagnostic }
    }

    /// Whether every source has been dealt with.
    pub fn finished(&self) -> (done: bool)
        ensures
            done == self@.finished(),
    {
        self.position >= self.config.files().len()
    }

    /// Whether no source has failed so far. Once the run is finished this
    /// is its status: the process exits with zero exactly when it holds.
    pub fn succeeded(&self) -> (ok: bool)
        ensures
            ok == !self@.failed,
    {
        !self.failed
    }
}

/// The number of sources that a run over `outcomes` deals with: all of
/// them, or as many as there are outcomes if those are fewer.
pub open spec fn sources_run(config: ConfigModel, outcomes: Seq<Outcome>) -> nat {
    if outcomes.len() <= config.sources.len() {
        outcomes.len()
    } else {
        config.sources.len()
    }
}

/// Everything written to the output for the first `count` sources, in
/// order.
pub open spec fn run_text(config: ConfigModel, outcomes: Seq<Outcome>, count: nat) -> Seq<char>
    decreases count,
{
    if count == 0 {
        Seq::empty()
    } else {
        run_text(config, outcomes, (count - 1) as nat) + source_text(
            config,
            count - 1,
            outcomes[count - 1],
        )
    }
}

/// The diagnostics for the first `count` sources, in order: one line for
/// each source that failed.
pub open spec fn run_diagnostics(config: ConfigModel, outcomes: Seq<Outcome>, count: nat) -> Seq<
    Seq<char>,
>
    decreases count,
{
    if count == 0 {
        Seq::empty()
    } else {
        let before = run_diagnostics(config, outcomes, (count - 1) as nat);
        match source_diagnostic(config, count - 1, outcomes[count - 1]) {
            Some(line) => before.push(line),
            None => before,
        }
    }
}

/// Whether none of the first `count` sources failed.
pub open spec fn run_succeeded(outcomes: Seq<Outcome>, count: nat) -> bool {
    forall|i: int| 0 <= i < count ==> #[trigger] outcomes[i] is Content
}

/// The text of each string of a list.
pub open spec fn texts(lines: Seq<String>) -> Seq<Seq<char>> {
    Seq::new(lines.len(), |i: int| lines[i]@)
}

/// What a whole run wrote, and how it ended.
#[derive(Debug, PartialEq, Eq)]
pub struct RunReport {
    pub stdout: String,
    pub diagnostics: Vec<String>,
    pub succeeded: bool,
}

/// Runs over the sources of `config` in order, given what came of opening
/// and reading each of them.
///
/// The report holds the output of every source one after another, the
/// diagnostics of those that failed, and the status: success exactly when
/// no source failed. A failed source never keeps a later one from being
/// processed.
pub fn run(config: Config, results: Vec<SourceResult>) -> (report: RunReport)
    ensures
        report.stdout@ == run_text(
            config@,
            outcomes_of(results@),
            sources_run(config@, outcomes_of(results@)),
        ),
        texts(report.diagnostics@) == run_diagnostics(
            config@,
            outcomes_of(results@),
            sources_run(config@, outcomes_of(results@)),
        ),
        report.succeeded == run_succeeded(
            outcomes_of(results@),
            sources_run(config@, outcomes_of(results@)),
        ),
{
    let ghost model = config@;
    let ghost outcomes = outcomes_of(results@);
    let mut runner = Runner::new(config);
    let mut stdout = String::new();
    let mut diagnostics: Vec<String> = Vec::new();
    for result in it: results
        invariant
            it.seq() == results@,
            outcomes == outcomes_of(results@),
            runner@.config == model,
            runner@.position == sources_run(model, outcomes.take(it.index() as int)),
            runner@.failed == !run_succeeded(outcomes, runner@.position),
            stdout@ == run_text(model, outcomes, runner@.position),
            texts(diagnostics@) == run_diagnostics(model, outcomes, runner@.position),
    {
        let ghost before = runner@;
        let ghost lines_before = diagnostics@;
        let emission = runner.accept(result);
        stdout.append(emission.stdout.as_str());
        match emission.diagnostic {
            Some(line) => {
                diagnostics.push(line);
                assert(texts(diagnostics@) =~= texts(lines_before).push(line@));
            },
            None => {},
        }
        proof {
            assert(outcomes[it.index() as int] == outcome_of(result));
            if before.finished() {
                assert(stdout@ =~= run_text(model, outcomes, runner@.position));
            } else {
                assert(before.position == it.index());
            }
        }
    }
    assert(outcomes.take(results@.len() as int) =~= outcomes);
    RunReport { stdout, diagnostics, succeeded: runner.succeeded() }
}

} // verus!
