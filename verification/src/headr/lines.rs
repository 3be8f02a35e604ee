//! Lines of a byte stream: how a stream splits at newline bytes, and what
//! its first lines are.

use vstd::prelude::*;

verus! {

/// The byte that ends a line.
pub const NEWLINE: u8 = 10;

/// The length of the first line of `s`, its terminator not counted: the
/// number of bytes before the first newline, or all of them if there is none.
pub open spec fn first_line_len(s: Seq<u8>) -> nat
    decreases s.len(),
{
    if s.len() == 0 || s[0] == NEWLINE {
        0
    } else {
        1 + first_line_len(s.skip(1))
    }
}

/// What follows the first line of `s` and its terminator.
pub open spec fn after_first_line(s: Seq<u8>) -> Seq<u8> {
    let n = first_line_len(s);
    if n < s.len() {
        s.skip(n as int + 1)
    } else {
        Seq::empty()
    }
}

/// The lines of `s`, without their terminators.
///
/// Every newline byte ends a line. Bytes after the last newline form a final
/// line of their own; an empty stream has no lines, and a stream that ends
/// in a newline has no empty line after it.
pub open spec fn lines(s: Seq<u8>) -> Seq<Seq<u8>>
    decreases s.len(),
{
    if s.len() == 0 {
        Seq::empty()
    } else {
        seq![s.take(first_line_len(s) as int)] + lines(after_first_line(s))
    }
}

/// The given lines written out one after another, each followed by a
/// newline.
pub open spec fn terminated(ls: Seq<Seq<u8>>) -> Seq<u8>
    decreases ls.len(),
{
    if ls.len() == 0 {
        Seq::empty()
    } else {
        ls[0].push(NEWLINE) + terminated(ls.skip(1))
    }
}

/// The first `limit` lines of `s`, or all of them if it has fewer, each
/// followed by a newline.
pub open spec fn front_lines(s: Seq<u8>, limit: nat) -> Seq<u8> {
    let ls = lines(s);
    terminated(ls.take(if limit <= ls.len() { limit as int } else { ls.len() as int }))
}

/// How many bytes of `s` its first `limit` lines take up, terminators
/// included: where a reader that wants those lines may stop.
pub open spec fn front_lines_len(s: Seq<u8>, limit: nat) -> nat
    decreases limit,
{
    if limit == 0 || s.len() == 0 {
        0
    } else {
        let n = first_line_len(s);
        if n < s.len() {
            n + 1 + front_lines_len(s.skip(n as int + 1), (limit - 1) as nat)
        } else {
            n
        }
    }
}

/// The first line is never longer than the stream.
pub proof fn lemma_first_line_len_bound(s: Seq<u8>)
    ensures
        first_line_len(s) <= s.len(),
    decreases s.len(),
{
    if s.len() == 0 || s[0] == NEWLINE {
    } else {
        lemma_first_line_len_bound(s.skip(1));
    }
}

/// A position with no newline before it, which is the end of the stream or
/// holds a newline, is where the first line ends.
pub proof fn lemma_first_line_len_is(s: Seq<u8>, n: int)
    requires
        0 <= n <= s.len(),
        forall|i: int| 0 <= i < n ==> s[i] != NEWLINE,
        n == s.len() || s[n] == NEWLINE,
    ensures
        first_line_len(s) == n,
    decreases n,
{
    if n > 0 {
        let t = s.skip(1);
        assert forall|i: int| 0 <= i < n - 1 implies t[i] != NEWLINE by {
            assert(t[i] == s[i + 1]);
        }
        lemma_first_line_len_is(t, n - 1);
    }
}

/// Lines written out after a first line are that line, its newline, and the
/// rest written out.
pub proof fn lemma_terminated_cons(first: Seq<u8>, rest: Seq<Seq<u8>>)
    ensures
        terminated(seq![first] + rest) == first.push(NEWLINE) + terminated(rest),
{
    let all = seq![first] + rest;
    assert(all[0] == first);
    assert(all.skip(1) =~= rest);
}

/// The first lines of a non-empty stream are its first line, terminated,
/// and then one fewer of the lines that follow it.
pub proof fn lemma_front_lines_step(s: Seq<u8>, limit: nat)
    requires
        s.len() > 0,
        limit > 0,
    ensures
        front_lines(s, limit) == s.take(first_line_len(s) as int).push(NEWLINE) + front_lines(
            after_first_line(s),
            (limit - 1) as nat,
        ),
{
    let first = s.take(first_line_len(s) as int);
    let rest = lines(after_first_line(s));
    let ls = lines(s);
    assert(ls == seq![first] + rest);
    let k: int = if limit <= ls.len() { limit as int } else { ls.len() as int };
    let k1: int = if limit - 1 <= rest.len() { limit - 1 } else { rest.len() as int };
    assert(k == k1 + 1);
    assert(ls.take(k) =~= seq![first] + rest.take(k1));
    lemma_terminated_cons(first, rest.take(k1));
}

/// With no lines asked for, none are kept.
pub proof fn lemma_front_lines_none(s: Seq<u8>)
    ensures
        front_lines(s, 0) == Seq::<u8>::empty(),
{
    assert(lines(s).take(0) =~= Seq::<Seq<u8>>::empty());
}

/// An empty stream has no lines to keep.
pub proof fn lemma_front_lines_of_empty(limit: nat)
    ensures
        front_lines(Seq::<u8>::empty(), limit) == Seq::<u8>::empty(),
{
    assert(lines(Seq::<u8>::empty()).take(0) =~= Seq::<Seq<u8>>::empty());
}

/// No byte of the first line is a newline, and the byte after it, if there
/// is one, is.
pub proof fn lemma_first_line_shape(s: Seq<u8>)
    ensures
        forall|i: int| 0 <= i < first_line_len(s) ==> s[i] != NEWLINE,
        first_line_len(s) < s.len() ==> s[first_line_len(s) as int] == NEWLINE,
    decreases s.len(),
{
    if s.len() == 0 || s[0] == NEWLINE {
    } else {
        let t = s.skip(1);
        lemma_first_line_shape(t);
        lemma_first_line_len_bound(s);
        assert forall|i: int| 0 <= i < first_line_len(s) implies s[i] != NEWLINE by {
            if i > 0 {
                assert(s[i] == t[i - 1]);
            }
        }
        if first_line_len(s) < s.len() {
            assert(s[first_line_len(s) as int] == t[first_line_len(t) as int]);
        }
    }
}

/// The first lines of a stream lie within it.
pub proof fn lemma_front_lines_len_bound(s: Seq<u8>, limit: nat)
    ensures
        front_lines_len(s, limit) <= s.len(),
    decreases limit,
{
    if limit == 0 || s.len() == 0 {
    } else {
        let n = first_line_len(s);
        lemma_first_line_len_bound(s);
        if n < s.len() {
            lemma_front_lines_len_bound(s.skip(n as int + 1), (limit - 1) as nat);
        }
    }
}

/// The first lines of a stream can be told from the bytes they take up:
/// what follows them has no say.
pub proof fn lemma_front_lines_of_prefix(s: Seq<u8>, limit: nat)
    ensures
        front_lines(s.take(front_lines_len(s, limit) as int), limit) == front_lines(s, limit),
    decreases limit,
{
    let taken = front_lines_len(s, limit);
    let p = s.take(taken as int);
    if limit == 0 {
        lemma_front_lines_none(p);
        lemma_front_lines_none(s);
    } else if s.len() == 0 {
        assert(p =~= s);
    } else {
        let n = first_line_len(s);
        lemma_first_line_len_bound(s);
        if n < s.len() {
            let rest = s.skip(n as int + 1);
            let rest_taken = front_lines_len(rest, (limit - 1) as nat);
            lemma_front_lines_len_bound(rest, (limit - 1) as nat);
            lemma_first_line_shape(s);
            lemma_first_line_len_is(p, n as int);
            assert(after_first_line(p) =~= rest.take(rest_taken as int));
            assert(p.take(n as int) =~= s.take(n as int));
            lemma_front_lines_of_prefix(rest, (limit - 1) as nat);
            lemma_front_lines_step(p, limit);
            lemma_front_lines_step(s, limit);
        } else {
            assert(p =~= s);
        }
    }
}

/// Whether no line of `ls` holds a newline.
pub open spec fn newline_free(ls: Seq<Seq<u8>>) -> bool {
    forall|i: int, j: int|
        0 <= i < ls.len() && 0 <= j < ls[i].len() ==> (#[trigger] ls[i][j]) != NEWLINE
}

/// The lines of a stream hold no newline.
pub proof fn lemma_lines_newline_free(s: Seq<u8>)
    ensures
        newline_free(lines(s)),
    decreases s.len(),
{
    if s.len() > 0 {
        let first = s.take(first_line_len(s) as int);
        let rest = lines(after_first_line(s));
        lemma_first_line_len_bound(s);
        lemma_first_line_shape(s);
        lemma_lines_newline_free(after_first_line(s));
        let ls = lines(s);
        assert forall|i: int, j: int| 0 <= i < ls.len() && 0 <= j < ls[i].len() implies (
        #[trigger] ls[i][j]) != NEWLINE by {
            if i == 0 {
                assert(ls[0] == first);
                assert(first[j] == s[j]);
            } else {
                assert(ls[i] == rest[i - 1]);
                assert(rest[i - 1][j] != NEWLINE);
            }
        }
    }
}

/// Splitting undoes writing out: lines that hold no newline, written out
/// each with a newline after it, split into those same lines again.
pub proof fn lemma_lines_of_terminated(ls: Seq<Seq<u8>>)
    requires
        newline_free(ls),
    ensures
        lines(terminated(ls)) == ls,
    decreases ls.len(),
{
    if ls.len() == 0 {
        assert(lines(terminated(ls)) =~= ls);
    } else {
        let first = ls[0];
        let rest = ls.skip(1);
        let t = terminated(ls);
        assert(t == first.push(NEWLINE) + terminated(rest));
        assert forall|i: int| 0 <= i < first.len() implies t[i] != NEWLINE by {
            assert(t[i] == ls[0][i]);
        }
        assert(t[first.len() as int] == NEWLINE);
        lemma_first_line_len_is(t, first.len() as int);
        assert(t.take(first.len() as int) =~= first);
        assert(after_first_line(t) =~= terminated(rest));
        assert forall|i: int, j: int| 0 <= i < rest.len() && 0 <= j < rest[i].len() implies (
        #[trigger] rest[i][j]) != NEWLINE by {
            assert(rest[i] == ls[i + 1]);
            assert(ls[i + 1][j] != NEWLINE);
        }
        lemma_lines_of_terminated(rest);
        assert(lines(t) =~= seq![first] + rest);
        assert(seq![first] + rest =~= ls);
    }
}

} // verus!
