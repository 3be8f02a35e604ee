//! The tally of a run: the counts of every file, the failures, an optional
//! total, and the table that shows them.

use crate::text::decimal::{padded_decimal, push_padded_decimal};
use crate::wcr::counter::Counter;
use vstd::prelude::*;

verus! {

/// One row of the tally, as mathematics: the name of a file with its
/// counts, or with the reason why it could not be counted.
pub struct EntryModel {
    pub name: Seq<char>,
    pub data: Result<Counter, Seq<char>>,
}

/// The tally, as mathematics.
pub struct TallyModel {
    pub total: Option<Counter>,
    pub entries: Seq<EntryModel>,
    pub longest_count: nat,
}

/// The row that a stored entry stands for.
pub open spec fn entry_model(entry: (String, Result<Counter, String>)) -> EntryModel {
    EntryModel {
        name: entry.0@,
        data: match entry.1 {
            Ok(counter) => Ok(counter),
            Err(reason) => Err(reason@),
        },
    }
}

/// The rows that a list of stored entries stands for, in the same order.
pub open spec fn entry_models(entries: Seq<(String, Result<Counter, String>)>) -> Seq<EntryModel> {
    Seq::new(entries.len(), |i: int| entry_model(entries[i]))
}

/// One column of a row: nothing if the count is not shown, and else its
/// numeral pushed to the right of its field. The first column that is
/// shown is as wide as the widest count; each later one is one wider, which
/// keeps the columns apart.
pub open spec fn column_text(shown: bool, first: bool, value: usize, longest: nat) -> Seq<char> {
    if !shown {
        Seq::empty()
    } else if first {
        padded_decimal(value as nat, longest)
    } else {
        padded_decimal(value as nat, longest + 1)
    }
}

/// The row for a file that was counted: the shown counts in the order
/// lines, words, characters, bytes, then a space and the name.
pub open spec fn row_text(
    counter: Counter,
    name: Seq<char>,
    longest: nat,
    show_lines: bool,
    show_words: bool,
    show_chars: bool,
    show_bytes: bool,
) -> Seq<char> {
    column_text(show_lines, true, counter.lines, longest) + column_text(
        show_words,
        !show_lines,
        counter.words,
        longest,
    ) + column_text(show_chars, !show_lines && !show_words, counter.chars, longest) + column_text(
        show_bytes,
        !show_lines && !show_words && !show_chars,
        counter.bytes,
        longest,
    ) + " "@ + name
}

/// A line of the table and the channel it goes to.
#[derive(Debug, PartialEq, Eq)]
pub enum ReportLine {
    /// A row of counts, for the output.
    Output(String),
    /// The report of a failure, for the error channel.
    Error(String),
}

/// A line of the table, as mathematics.
pub enum LineModel {
    Output(Seq<char>),
    Error(Seq<char>),
}

/// The line that a report line stands for.
pub open spec fn line_model(line: ReportLine) -> LineModel {
    match line {
        ReportLine::Output(text) => LineModel::Output(text@),
        ReportLine::Error(text) => LineModel::Error(text@),
    }
}

/// The lines that a list of report lines stands for, in the same order.
pub open spec fn line_models(lines: Seq<ReportLine>) -> Seq<LineModel> {
    Seq::new(lines.len(), |i: int| line_model(lines[i]))
}

/// The line that shows one row: the counts of a file that was counted, and
/// the name with the reason for one that was not.
pub open spec fn shown_entry(
    entry: EntryModel,
    longest: nat,
    show_lines: bool,
    show_words: bool,
    show_chars: bool,
    show_bytes: bool,
) -> LineModel {
    match entry.data {
        Ok(counter) => LineModel::Output(
            row_text(counter, entry.name, longest, show_lines, show_words, show_chars, show_bytes),
        ),
        Err(reason) => LineModel::Error(entry.name + ": "@ + reason),
    }
}

/// The rows of a tally once it is shown: those it has, and a last row named
/// `total` if it keeps one.
pub open spec fn shown_entries(tally: TallyModel) -> Seq<EntryModel> {
    match tally.total {
        Some(total) => tally.entries.push(EntryModel { name: "total"@, data: Ok(total) }),
        None => tally.entries,
    }
}

/// The counts of the files of one run.
pub struct CounterMetadata {
    total: Option<Counter>,
    file_tally: Vec<(String, Result<Counter, String>)>,
    longest_count: usize,
}

impl View for CounterMetadata {
    type V = TallyModel;

    closed spec fn view(&self) -> TallyModel {
        TallyModel {
            total: self.total,
            entries: entry_models(self.file_tally@),
            longest_count: self.longest_count as nat,
        }
    }
}

impl CounterMetadata {
    /// The tally is well formed: the width of its table leaves room for
    /// the space between two columns.
    pub closed spec fn wf(&self) -> bool {
        self.longest_count < usize::MAX
    }

    /// An empty tally that keeps a total, for a run over several files.
    pub fn new_with_total() -> (tally: Self)
        ensures
            tally.wf(),
            tally@ == (TallyModel {
                total: Some(Counter { lines: 0, words: 0, chars: 0, bytes: 0 }),
                entries: Seq::empty(),
                longest_count: 0,
            }),
    {
        let tally = CounterMetadata {
            total: Some(Counter::new()),
            file_tally: Vec::new(),
            longest_count: 0,
        };
        assert(entry_models(tally.file_tally@) =~= Seq::empty());
        tally
    }

    /// An empty tally that keeps no total, for a run over a single file.
    pub fn new_without_total() -> (tally: Self)
        ensures
            tally.wf(),
            tally@ == (TallyModel { total: None, entries: Seq::empty(), longest_count: 0 }),
    {
        let tally = CounterMetadata { total: None, file_tally: Vec::new(), longest_count: 0 };
        assert(entry_models(tally.file_tally@) =~= Seq::empty());
        tally
    }

    /// An empty tally for a run over `file_count` files: it keeps a total
    /// exactly when there is more than one file.
    pub fn new_for_files(file_count: usize) -> (tally: Self)
        ensures
            tally.wf(),
            tally@ == (TallyModel {
                total: if file_count > 1 {
                    Some(Counter { lines: 0, words: 0, chars: 0, bytes: 0 })
                } else {
                    None
                },
                entries: Seq::empty(),
                longest_count: 0,
            }),
    {
        if file_count > 1 {
            Self::new_with_total()
        } else {
            Self::new_without_total()
        }
    }

    /// Records that the file `filename` could not be counted, and why.
    pub fn add_error_entry(&mut self, filename: String, err: String)
        requires
            old(self).wf(),
        ensures
            final(self).wf(),
            final(self)@ == (TallyModel {
                entries: old(self)@.entries.push(EntryModel { name: filename@, data: Err(err@) }),
                ..old(self)@
            }),
    {
        self.file_tally.push((filename, Err(err)));
        assert(entry_models(self.file_tally@) =~= entry_models(old(self).file_tally@).push(
            EntryModel { name: filename@, data: Err(err@) },
        ));
    }

    /// Whether the counts of one more file can be added to the total, if
    /// one is kept, without leaving the range of the machine word.
    pub open spec fn has_room_for(tally: TallyModel, file_counter: Counter) -> bool {
        tally.total matches Some(total) ==> total.can_add(file_counter)
    }

    /// Tests whether [`CounterMetadata::add_entry`] may be called with
    /// `file_counter`.
    pub fn can_add_entry(&self, file_counter: Counter) -> (room: bool)
        ensures
            room == Self::has_room_for(self@, file_counter),
    {
        match self.total {
            Some(total) => {
                file_counter.lines <= usize::MAX - total.lines && file_counter.words <= usize::MAX
                    - total.words && file_counter.chars <= usize::MAX - total.chars
                    && file_counter.bytes <= usize::MAX - total.bytes
            },
            None => true,
        }
    }

    /// Records the counts of the file `filename`.
    ///
    /// The counts join the total, if one is kept, and the width of the
    /// table grows to the widest of them if that is wider than before.
    pub fn add_entry(&mut self, file_counter: Counter, filename: String)
        requires
            old(self).wf(),
            Self::has_room_for(old(self)@, file_counter),
        ensures
            final(self).wf(),
            final(self)@ == (TallyModel {
                total: match old(self)@.total {
                    Some(total) => Some(total.plus(file_counter)),
                    None => None,
                },
                entries: old(self)@.entries.push(
                    EntryModel { name: filename@, data: Ok(file_counter) },
                ),
                longest_count: if file_counter.widest() > old(self)@.longest_count {
                    file_counter.widest()
                } else {
                    old(self)@.longest_count
                },
            }),
    {
        match self.total {
            Some(total) => {
                self.total = Some(total + file_counter);
            },
            None => {},
        }
        self.file_tally.push((filename, Ok(file_counter)));
        assert(entry_models(self.file_tally@) =~= entry_models(old(self).file_tally@).push(
            EntryModel { name: filename@, data: Ok(file_counter) },
        ));
        let current_longest_count = file_counter.longest_count();
        if current_longest_count > self.longest_count {
            self.longest_count = current_longest_count;
        }
    }

    /// Closes the tally and lays out its table.
    ///
    /// The total, if one is kept, joins the rows as a last row named
    /// `total`. Then every row gives one line, in order: a row of counts
    /// for the output, or the report of a failure for the error channel.
    pub fn display(
        &mut self,
        show_lines: bool,
        show_words: bool,
        show_chars: bool,
        show_bytes: bool,
    ) -> (lines: Vec<ReportLine>)
        requires
            old(self).wf(),
        ensures
            final(self).wf(),
            final(self)@ == (TallyModel { entries: shown_entries(old(self)@), ..old(self)@ }),
            line_models(lines@) == Seq::new(
                final(self)@.entries.len(),
                |i: int|
                    shown_entry(
                        final(self)@.entries[i],
                        old(self)@.longest_count,
                        show_lines,
                        show_words,
                        show_chars,
                        show_bytes,
                    ),
            ),
    {
        let longest = self.longest_count;
        match self.total {
            Some(total) => {
                self.file_tally.push(("total".to_owned(), Ok(total)));
                assert(entry_models(self.file_tally@) =~= entry_models(old(self).file_tally@).push(
                    EntryModel { name: "total"@, data: Ok(total) },
                ));
            },
            None => {},
        }
        let mut lines: Vec<ReportLine> = Vec::new();
        let mut i: usize = 0;
        while i < self.file_tally.len()
            invariant
                i <= self.file_tally.len(),
                longest < usize::MAX,
                lines.len() == i,
                forall|j: int|
                    0 <= j < i ==> line_model(#[trigger] lines@[j]) == shown_entry(
                        entry_model(self.file_tally@[j]),
                        longest as nat,
                        show_lines,
                        show_words,
                        show_chars,
                        show_bytes,
                    ),
            decreases self.file_tally.len() - i,
        {
            let mut text = String::new();
            let line = match &self.file_tally[i] {
                (name, Err(reason)) => {
                    text.append(name.as_str());
                    text.append(": ");
                    text.append(reason.as_str());
                    ReportLine::Error(text)
                },
                (name, Ok(file)) => {
                    let mut first = true;
                    if show_lines {
                        push_padded_decimal(&mut text, file.lines, longest);
                        first = false;
                    }
                    if show_words {
                        push_padded_decimal(
                            &mut text,
                            file.words,
                            if first { longest } else { longest + 1 },
                        );
                        first = false;
                    }
                    if show_chars {
                        push_padded_decimal(
                            &mut text,
                            file.chars,
                            if first { longest } else { longest + 1 },
                        );
                        first = false;
                    }
                    if show_bytes {
                        push_padded_decimal(
                            &mut text,
                            file.bytes,
                            if first { longest } else { longest + 1 },
                        );
                    }
                    text.append(" ");
                    text.append(name.as_str());
                    ReportLine::Output(text)
                },
            };
            lines.push(line);
            i = i + 1;
        }
        assert(line_models(lines@) =~= Seq::new(
            entry_models(self.file_tally@).len(),
            |i: int|
                shown_entry(
                    entry_models(self.file_tally@)[i],
                    longest as nat,
                    show_lines,
                    show_words,
                    show_chars,
                    show_bytes,
                ),
        ));
        lines
    }
}

} // verus!
