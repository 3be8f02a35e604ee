//! What holds of extraction and of a run, whatever the stream and the
//! policy.

use crate::headr::config::ConfigModel;
use crate::headr::extract::{extracted, plan_for, ReadPlan};
use crate::headr::header::{banner_text, banners_shown, separator_text};
use crate::headr::lines::{
    after_first_line, first_line_len, front_lines, front_lines_len, lemma_first_line_len_bound,
    lemma_first_line_shape, lemma_front_lines_len_bound, lemma_front_lines_none,
    lemma_front_lines_of_empty, lemma_front_lines_of_prefix, lemma_front_lines_step,
    lemma_lines_newline_free, lemma_lines_of_terminated, lines, newline_free, terminated, NEWLINE,
};
use crate::headr::policy::{HeadKind, PolicyModel, Sign};
use crate::headr::runner::{run_text, shown_name, source_text, Outcome};
use crate::text::strings::lossy_text;
use vstd::prelude::*;

verus! {

/// Keeping `n` bytes from the front yields the first `n` bytes of the
/// stream, or all of it if it is shorter.
pub proof fn bytes_from_front(n: nat, s: Seq<u8>)
    ensures
        extracted(PolicyModel { unit: HeadKind::Bytes, magnitude: n, sign: Sign::Positive }, s)
            == s.take(if n <= s.len() { n as int } else { s.len() as int }),
{
}

/// Keeping all but the last `n` bytes yields the stream without its last
/// `n` bytes, and nothing if it is no longer than that.
pub proof fn bytes_from_end(n: nat, s: Seq<u8>)
    ensures
        extracted(PolicyModel { unit: HeadKind::Bytes, magnitude: n, sign: Sign::Negative }, s)
            == s.take(if s.len() - n >= 0 { s.len() - n } else { 0 }),
{
}

/// A zero count keeps nothing, whatever the stream holds, and asks for
/// nothing to be read: a reader that follows the plan never touches the
/// stream, however long it is.
pub proof fn zero_count_keeps_nothing(unit: HeadKind, magnitude: nat, s: Seq<u8>)
    ensures
        extracted(PolicyModel { unit, magnitude, sign: Sign::Zero }, s) == Seq::<u8>::empty(),
        plan_for(PolicyModel { unit, magnitude, sign: Sign::Zero }) == ReadPlan::Nothing,
        ReadPlan::Nothing.taken_from(s) == Seq::<u8>::empty(),
{
}

/// Of a stream with `k` lines, keeping `n` lines from the front yields its
/// first `min(n, k)` lines, and keeping all but the last `n` yields its
/// first `max(0, k - n)` lines; each line is written with a newline after
/// it.
pub proof fn lines_from_front_and_end(n: nat, s: Seq<u8>)
    ensures
        extracted(PolicyModel { unit: HeadKind::Lines, magnitude: n, sign: Sign::Positive }, s)
            == terminated(
            lines(s).take(if n <= lines(s).len() { n as int } else { lines(s).len() as int }),
        ),
        extracted(PolicyModel { unit: HeadKind::Lines, magnitude: n, sign: Sign::Negative }, s)
            == terminated(lines(s).take(if lines(s).len() - n >= 0 { lines(s).len() - n } else { 0 })),
{
}

/// Whether the last of the first `limit` lines of `s` is the unfinished
/// end of the stream: the lines reach the end of the stream, and no newline
/// stands there.
pub open spec fn ends_unfinished(s: Seq<u8>, limit: nat) -> bool {
    limit > 0 && s.len() > 0 && front_lines_len(s, limit) == s.len() && s.last() != NEWLINE
}

/// The lines that are kept are the front of the stream, byte for byte. The
/// one byte that extraction may add is a newline at the very end, after a
/// last line that the stream left unfinished.
pub proof fn kept_lines_are_the_front_of_the_stream(s: Seq<u8>, limit: nat)
    ensures
        front_lines_len(s, limit) <= s.len(),
        front_lines(s, limit) == if ends_unfinished(s, limit) {
            s.push(NEWLINE)
        } else {
            s.take(front_lines_len(s, limit) as int)
        },
    decreases limit,
{
    lemma_front_lines_len_bound(s, limit);
    if limit == 0 {
        lemma_front_lines_none(s);
    } else if s.len() == 0 {
        lemma_front_lines_of_empty(limit);
        assert(s =~= Seq::<u8>::empty());
    } else {
        let n = first_line_len(s);
        let rest = after_first_line(s);
        lemma_first_line_len_bound(s);
        lemma_first_line_shape(s);
        lemma_front_lines_step(s, limit);
        kept_lines_are_the_front_of_the_stream(rest, (limit - 1) as nat);
        lemma_front_lines_len_bound(rest, (limit - 1) as nat);
        if n < s.len() {
            let rest_len = front_lines_len(rest, (limit - 1) as nat);
            let front = s.take((n + 1 + rest_len) as int);
            assert(front =~= s.take(n as int).push(NEWLINE) + rest.take(rest_len as int));
            if ends_unfinished(rest, (limit - 1) as nat) {
                assert(rest.last() == s.last());
                assert(s.push(NEWLINE) =~= s.take(n as int).push(NEWLINE) + rest.push(NEWLINE));
            } else if rest.len() > 0 && rest_len == rest.len() {
                assert(rest.last() == s.last());
            }
        } else {
            lemma_front_lines_of_empty((limit - 1) as nat);
            assert(s.take(n as int) =~= s);
            assert(s.push(NEWLINE) + Seq::<u8>::empty() =~= s.push(NEWLINE));
        }
    }
}

/// The lines of what is kept are the kept lines: split again, the output
/// of keeping `limit` lines gives the first `limit` lines of the stream, or
/// all of them if it has fewer, and nothing else.
pub proof fn kept_lines_read_back(s: Seq<u8>, limit: nat)
    ensures
        lines(front_lines(s, limit)) == lines(s).take(
            if limit <= lines(s).len() { limit as int } else { lines(s).len() as int },
        ),
{
    let ls = lines(s);
    let kept = ls.take(if limit <= ls.len() { limit as int } else { ls.len() as int });
    lemma_lines_newline_free(s);
    assert(newline_free(kept)) by {
        assert forall|i: int, j: int| 0 <= i < kept.len() && 0 <= j < kept[i].len() implies (
        #[trigger] kept[i][j]) != NEWLINE by {
            assert(kept[i] == ls[i]);
            assert(ls[i][j] != NEWLINE);
        }
    }
    lemma_lines_of_terminated(kept);
}

/// Counting from the front is idempotent: what a policy with a count from
/// the front, or a zero count, keeps of its own output is that output
/// again.
pub proof fn extraction_from_front_is_idempotent(policy: PolicyModel, s: Seq<u8>)
    requires
        policy.sign != Sign::Negative,
    ensures
        extracted(policy, extracted(policy, s)) == extracted(policy, s),
{
    let once = extracted(policy, s);
    match policy.sign {
        Sign::Zero => {},
        Sign::Negative => {},
        Sign::Positive => match policy.unit {
            HeadKind::Bytes => {
                assert(once.take(once.len() as int) =~= once);
            },
            HeadKind::Lines => {
                kept_lines_read_back(s, policy.magnitude);
                let kept = lines(once);
                assert(kept.take(kept.len() as int) =~= kept);
            },
        },
    }
}

/// Extraction has no memory and no chance in it: run again on a fresh copy
/// of the same bytes, under the same policy, it yields the same bytes.
pub proof fn rerun_yields_same_output(policy: PolicyModel, first: Seq<u8>, second: Seq<u8>)
    requires
        first =~= second,
    ensures
        extracted(policy, first) == extracted(policy, second),
{
}

/// What the read plan takes from a stream is a prefix of it, and is all that
/// extraction needs: the output for that prefix is the output for the whole
/// stream. So a count from the front never waits for more of the stream
/// than it keeps.
pub proof fn planned_prefix_suffices(policy: PolicyModel, s: Seq<u8>)
    requires
        policy.magnitude <= usize::MAX,
    ensures
        plan_for(policy).taken_from(s).is_prefix_of(s),
        extracted(policy, plan_for(policy).taken_from(s)) == extracted(policy, s),
{
    let plan = plan_for(policy);
    let taken = plan.taken_from(s);
    match plan {
        ReadPlan::Nothing => {},
        ReadPlan::Bytes(n) => {
            assert(taken.take(taken.len() as int) =~= taken);
        },
        ReadPlan::Lines(n) => {
            lemma_front_lines_len_bound(s, n as nat);
            lemma_front_lines_of_prefix(s, n as nat);
        },
        ReadPlan::Everything => {},
    }
}

/// The banner of the source at `index` followed by what is shown of its
/// content.
pub open spec fn bannered_block(config: ConfigModel, index: int, content: Seq<u8>) -> Seq<char> {
    banner_text(shown_name(config.sources[index])) + lossy_text(extracted(config.policy, content))
}

/// The bannered blocks of the first `count` sources with one blank line
/// between each two of them, and none before the first or after the last.
pub open spec fn blocks_apart(config: ConfigModel, contents: Seq<Seq<u8>>, count: nat) -> Seq<char>
    decreases count,
{
    if count == 0 {
        Seq::empty()
    } else if count == 1 {
        bannered_block(config, 0, contents[0])
    } else {
        blocks_apart(config, contents, (count - 1) as nat) + separator_text() + bannered_block(
            config,
            count - 1,
            contents[count - 1],
        )
    }
}

/// The outcomes of sources that were all read: their contents.
pub open spec fn all_read(contents: Seq<Seq<u8>>) -> Seq<Outcome> {
    Seq::new(contents.len(), |i: int| Outcome::Content(contents[i]))
}

/// With banners shown and every source read, what is written up to a
/// source is the blocks so far, set apart by blank lines, and one more blank
/// line if another source follows.
pub proof fn lemma_bannered_prefix(config: ConfigModel, contents: Seq<Seq<u8>>, count: nat)
    requires
        config.print_headers,
        contents.len() == config.sources.len(),
        0 < count <= contents.len(),
    ensures
        run_text(config, all_read(contents), count) == blocks_apart(config, contents, count) + (
        if count < contents.len() {
            separator_text()
        } else {
            Seq::empty()
        }),
    decreases count,
{
    let outcomes = all_read(contents);
    let last = source_text(config, count - 1, outcomes[count - 1]);
    let closing = if count < contents.len() {
        separator_text()
    } else {
        Seq::<char>::empty()
    };
    assert(last =~= bannered_block(config, count - 1, contents[count - 1]) + closing);
    if count == 1 {
        assert(run_text(config, outcomes, 0) =~= Seq::<char>::empty());
        assert(run_text(config, outcomes, 1) =~= last);
    } else {
        lemma_bannered_prefix(config, contents, (count - 1) as nat);
        assert(run_text(config, outcomes, count) =~= blocks_apart(config, contents, count)
            + closing);
    }
}

/// A run over two or more sources with neither banner flag given, all of
/// which are read, writes for each source its banner and then its content,
/// with exactly one blank line between one source and the next, and none
/// after the last.
pub proof fn banners_set_sources_apart(config: ConfigModel, contents: Seq<Seq<u8>>)
    requires
        config.sources.len() >= 2,
        config.print_headers == banners_shown(false, false, config.sources.len()),
        contents.len() == config.sources.len(),
    ensures
        run_text(config, all_read(contents), contents.len()) == blocks_apart(
            config,
            contents,
            contents.len(),
        ),
{
    lemma_bannered_prefix(config, contents, contents.len());
    assert(blocks_apart(config, contents, contents.len()) + Seq::<char>::empty()
        =~= blocks_apart(config, contents, contents.len()));
}

/// What is written for the sources from position `from` up to, and not
/// including, position `to`.
pub open spec fn text_between(config: ConfigModel, outcomes: Seq<Outcome>, from: nat, to: nat) -> Seq<
    char,
>
    decreases to,
{
    if to <= from {
        Seq::empty()
    } else {
        text_between(config, outcomes, from, (to - 1) as nat) + source_text(
            config,
            to - 1,
            outcomes[to - 1],
        )
    }
}

/// The text of a run is the text between its first source and its last.
pub proof fn lemma_text_from_start(config: ConfigModel, outcomes: Seq<Outcome>, count: nat)
    ensures
        run_text(config, outcomes, count) == text_between(config, outcomes, 0, count),
    decreases count,
{
    if count > 0 {
        lemma_text_from_start(config, outcomes, (count - 1) as nat);
    }
}

/// The text of a stretch of sources is the text of its first part followed
/// by the text of the rest.
pub proof fn lemma_text_split(
    config: ConfigModel,
    outcomes: Seq<Outcome>,
    from: nat,
    mid: nat,
    to: nat,
)
    requires
        from <= mid <= to,
    ensures
        text_between(config, outcomes, from, to) == text_between(config, outcomes, from, mid)
            + text_between(config, outcomes, mid, to),
    decreases to,
{
    if mid == to {
        assert(text_between(config, outcomes, from, mid) + Seq::<char>::empty()
            =~= text_between(config, outcomes, from, mid));
    } else {
        lemma_text_split(config, outcomes, from, mid, (to - 1) as nat);
        let last = source_text(config, to - 1, outcomes[to - 1]);
        assert(text_between(config, outcomes, from, to) =~= text_between(
            config,
            outcomes,
            from,
            mid,
        ) + (text_between(config, outcomes, mid, (to - 1) as nat) + last));
    }
}

/// The text of a stretch of sources depends on the outcomes of those
/// sources alone.
pub proof fn lemma_text_of_same_outcomes(
    config: ConfigModel,
    first: Seq<Outcome>,
    second: Seq<Outcome>,
    from: nat,
    to: nat,
)
    requires
        forall|i: int| from <= i < to ==> first[i] == second[i],
    ensures
        text_between(config, first, from, to) == text_between(config, second, from, to),
    decreases to,
{
    if to > from {
        lemma_text_of_same_outcomes(config, first, second, from, (to - 1) as nat);
    }
}

/// Whatever becomes of one source, be it a failure, what is written for
/// the sources before it and after it stays the same. Of two runs that
/// differ in the outcome of the source at `index` alone, each writes the
/// same text up to that source, then what that source gives in this run,
/// then the same text for all the sources that follow.
pub proof fn failures_stay_apart(
    config: ConfigModel,
    first: Seq<Outcome>,
    second: Seq<Outcome>,
    index: nat,
    count: nat,
)
    requires
        index < count <= first.len(),
        first.len() == second.len(),
        forall|i: int| 0 <= i < first.len() && i != index ==> first[i] == second[i],
    ensures
        run_text(config, first, count) == text_between(config, first, 0, index) + source_text(
            config,
            index as int,
            first[index as int],
        ) + text_between(config, first, index + 1, count),
        run_text(config, second, count) == text_between(config, first, 0, index) + source_text(
            config,
            index as int,
            second[index as int],
        ) + text_between(config, first, index + 1, count),
{
    lemma_text_from_start(config, first, count);
    lemma_text_from_start(config, second, count);
    lemma_text_split(config, first, 0, index, count);
    lemma_text_split(config, first, index, index + 1, count);
    lemma_text_split(config, second, 0, index, count);
    lemma_text_split(config, second, index, index + 1, count);
    lemma_text_of_same_outcomes(config, first, second, 0, index);
    lemma_text_of_same_outcomes(config, first, second, index + 1, count);
    assert(text_between(config, first, index, index) =~= Seq::<char>::empty());
    assert(text_between(config, second, index, index) =~= Seq::<char>::empty());
    assert(text_between(config, first, index, index + 1) =~= source_text(
        config,
        index as int,
        first[index as int],
    ));
    assert(text_between(config, second, index, index + 1) =~= source_text(
        config,
        index as int,
        second[index as int],
    ));
}

} // verus!
