//! The extractor: which bytes of a stream a policy keeps.
//!
//! Counting from the front needs no more of the stream than what is kept,
//! so a reader can stop early. Counting from the end needs the whole stream
//! before the first byte can be let through.

use crate::headr::lines::{
    after_first_line, first_line_len, front_lines, front_lines_len, lemma_first_line_len_is,
    lemma_front_lines_none, lemma_front_lines_of_empty, lemma_front_lines_step, lines, NEWLINE,
};
use crate::headr::policy::{ExtractionPolicy, HeadKind, PolicyModel, Sign};
use vstd::prelude::*;

verus! {

/// The smaller of two numbers.
pub open spec fn at_most(a: nat, b: nat) -> nat {
    if a <= b {
        a
    } else {
        b
    }
}

/// What is left of `a` after taking `b` away, and nothing if `b` is larger.
pub open spec fn all_but(a: nat, b: nat) -> nat {
    if b <= a {
        (a - b) as nat
    } else {
        0
    }
}

/// The output of extraction: what `policy` keeps of the stream `s`.
///
/// A zero count keeps nothing. A count from the front keeps that many bytes
/// or lines, or the whole stream if it is shorter. A count from the end
/// keeps all but that many bytes or lines, or nothing if the stream is
/// shorter. Lines that are kept are each written with a newline after them.
pub open spec fn extracted(policy: PolicyModel, s: Seq<u8>) -> Seq<u8> {
    match policy.sign {
        Sign::Zero => Seq::empty(),
        Sign::Positive => match policy.unit {
            HeadKind::Bytes => s.take(at_most(policy.magnitude, s.len()) as int),
            HeadKind::Lines => front_lines(s, policy.magnitude),
        },
        Sign::Negative => match policy.unit {
            HeadKind::Bytes => s.take(all_but(s.len(), policy.magnitude) as int),
            HeadKind::Lines => front_lines(s, all_but(lines(s).len(), policy.magnitude)),
        },
    }
}

/// How much of a stream a reader has to hand over for extraction.
#[derive(Clone, Copy, Debug, PartialEq, Eq, Structural)]
pub enum ReadPlan {
    /// Nothing: the stream is not read at all.
    Nothing,
    /// At most this many bytes from the front.
    Bytes(usize),
    /// At most this many lines from the front, the last one through its
    /// newline.
    Lines(usize),
    /// The whole stream, to its end.
    Everything,
}

impl ReadPlan {
    /// What a reader that follows this plan hands over of the stream `s`.
    pub open spec fn taken_from(self, s: Seq<u8>) -> Seq<u8> {
        match self {
            ReadPlan::Nothing => Seq::empty(),
            ReadPlan::Bytes(n) => s.take(at_most(n as nat, s.len()) as int),
            ReadPlan::Lines(n) => s.take(front_lines_len(s, n as nat) as int),
            ReadPlan::Everything => s,
        }
    }
}

/// The plan that serves `policy`: nothing for a zero count, the counted
/// front of the stream for a count from the front, and all of it for a count
/// from the end.
pub open spec fn plan_for(policy: PolicyModel) -> ReadPlan {
    match policy.sign {
        Sign::Zero => ReadPlan::Nothing,
        Sign::Positive => match policy.unit {
            HeadKind::Bytes => ReadPlan::Bytes(policy.magnitude as usize),
            HeadKind::Lines => ReadPlan::Lines(policy.magnitude as usize),
        },
        Sign::Negative => ReadPlan::Everything,
    }
}

/// Says how much of each stream has to be read under `policy`.
pub fn read_plan(policy: &ExtractionPolicy) -> (plan: ReadPlan)
    ensures
        plan == plan_for(policy@),
{
    match policy.sign() {
        Sign::Zero => ReadPlan::Nothing,
        Sign::Positive => match policy.unit() {
            HeadKind::Bytes => ReadPlan::Bytes(policy.magnitude()),
            HeadKind::Lines => ReadPlan::Lines(policy.magnitude()),
        },
        Sign::Negative => ReadPlan::Everything,
    }
}

/// Where the line that starts at `from` ends: the position of the next
/// newline, or the end of the data.
fn line_end(data: &[u8], from: usize) -> (end: usize)
    requires
        from <= data.len(),
    ensures
        from <= end <= data.len(),
        end - from == first_line_len(data@.skip(from as int)),
{
    let mut end: usize = from;
    while end < data.len() && data[end] != NEWLINE
        invariant
            from <= end <= data.len(),
            forall|i: int| from <= i < end ==> data@[i] != NEWLINE,
        decreases data.len() - end,
    {
        end = end + 1;
    }
    proof {
        lemma_first_line_len_is(data@.skip(from as int), end - from);
    }
    end
}

/// Where the line after the one that ends at `end` starts.
fn next_line_start(data: &[u8], from: usize, end: usize) -> (next: usize)
    requires
        from <= end <= data.len(),
        end - from == first_line_len(data@.skip(from as int)),
    ensures
        end <= next <= data.len(),
        data@.skip(next as int) == after_first_line(data@.skip(from as int)),
        from < data.len() ==> from < next,
{
    if end < data.len() {
        assert(data@.skip(from as int).skip(end - from + 1) =~= data@.skip(end + 1));
        end + 1
    } else {
        assert(data@.skip(end as int) =~= Seq::<u8>::empty());
        end
    }
}

/// Appends `data[from..to]` to `out`.
fn push_range(out: &mut Vec<u8>, data: &[u8], from: usize, to: usize)
    requires
        from <= to <= data.len(),
    ensures
        final(out)@ == old(out)@ + data@.subrange(from as int, to as int),
{
    let mut i: usize = from;
    while i < to
        invariant
            from <= i <= to <= data.len(),
            out@ == old(out)@ + data@.subrange(from as int, i as int),
        decreases to - i,
    {
        out.push(data[i]);
        assert(data@.subrange(from as int, i + 1) =~= data@.subrange(from as int, i as int).push(
            data@[i as int],
        ));
        i = i + 1;
    }
}

/// The number of lines in `data`.
pub fn count_lines(data: &[u8]) -> (count: usize)
    ensures
        count == lines(data@).len(),
{
    let mut count: usize = 0;
    let mut pos: usize = 0;
    assert(data@.skip(0) =~= data@);
    while pos < data.len()
        invariant
            pos <= data.len(),
            count <= pos,
            count + lines(data@.skip(pos as int)).len() == lines(data@).len(),
        decreases data.len() - pos,
    {
        let end = line_end(data, pos);
        let next = next_line_start(data, pos, end);
        count = count + 1;
        pos = next;
    }
    count
}

/// The streaming strategy for lines: copies lines from the front of `data`
/// until `limit` of them are out or the data ends, and looks at nothing
/// beyond the last line it copies.
pub fn take_front_lines(data: &[u8], limit: usize) -> (out: Vec<u8>)
    ensures
        out@ == front_lines(data@, limit as nat),
{
    let mut out: Vec<u8> = Vec::new();
    let mut pos: usize = 0;
    let mut taken: usize = 0;
    assert(data@.skip(0) =~= data@);
    while taken < limit && pos < data.len()
        invariant
            pos <= data.len(),
            taken <= limit,
            out@ + front_lines(data@.skip(pos as int), (limit - taken) as nat) == front_lines(
                data@,
                limit as nat,
            ),
        decreases data.len() - pos,
    {
        let end = line_end(data, pos);
        let next = next_line_start(data, pos, end);
        proof {
            let rest = data@.skip(pos as int);
            lemma_front_lines_step(rest, (limit - taken) as nat);
            assert(rest.take(end - pos) =~= data@.subrange(pos as int, end as int));
        }
        let ghost before = out@;
        push_range(&mut out, data, pos, end);
        out.push(NEWLINE);
        proof {
            let line = data@.subrange(pos as int, end as int);
            let tail = front_lines(data@.skip(next as int), (limit - taken - 1) as nat);
            assert(out@ + tail =~= before + (line.push(NEWLINE) + tail));
        }
        taken = taken + 1;
        pos = next;
    }
    proof {
        if taken == limit {
            lemma_front_lines_none(data@.skip(pos as int));
        } else {
            assert(data@.skip(pos as int) =~= Seq::<u8>::empty());
            lemma_front_lines_of_empty((limit - taken) as nat);
        }
        assert(out@ + Seq::<u8>::empty() =~= out@);
    }
    out
}

/// The streaming strategy for bytes: copies bytes from the front of `data`
/// until `limit` of them are out or the data ends.
pub fn take_front_bytes(data: &[u8], limit: usize) -> (out: Vec<u8>)
    ensures
        out@ == data@.take(at_most(limit as nat, data@.len()) as int),
{
    let keep = if limit <= data.len() {
        limit
    } else {
        data.len()
    };
    let mut out: Vec<u8> = Vec::new();
    push_range(&mut out, data, 0, keep);
    assert(out@ =~= data@.take(keep as int));
    out
}

/// The buffering strategy for bytes: with all of the stream in `data`,
/// copies everything but the last `drop` bytes.
pub fn drop_back_bytes(data: &[u8], drop: usize) -> (out: Vec<u8>)
    ensures
        out@ == data@.take(all_but(data@.len(), drop as nat) as int),
{
    let keep = data.len().saturating_sub(drop);
    take_front_bytes(data, keep)
}

/// The buffering strategy for lines: with all of the stream in `data`,
/// copies every line but the last `drop`.
pub fn drop_back_lines(data: &[u8], drop: usize) -> (out: Vec<u8>)
    ensures
        out@ == front_lines(data@, all_but(lines(data@).len(), drop as nat)),
{
    let keep = count_lines(data).saturating_sub(drop);
    take_front_lines(data, keep)
}

/// Extracts from `data` what `policy` keeps of it.
pub fn extract(policy: &ExtractionPolicy, data: &[u8]) -> (out: Vec<u8>)
    ensures
        out@ == extracted(policy@, data@),
{
    match policy.sign() {
        Sign::Zero => Vec::new(),
        Sign::Positive => match policy.unit() {
            HeadKind::Bytes => take_front_bytes(data, policy.magnitude()),
            HeadKind::Lines => take_front_lines(data, policy.magnitude()),
        },
        Sign::Negative => match policy.unit() {
            HeadKind::Bytes => drop_back_bytes(data, policy.magnitude()),
            HeadKind::Lines => drop_back_lines(data, policy.magnitude()),
        },
    }
}

} // verus!
