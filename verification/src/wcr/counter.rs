//! The four counts of a text, and how they add up line by line.

use crate::text::decimal::{decimal_digits, decimal_width};
use vstd::prelude::*;
use vstd::std_specs::ops::AddSpecImpl;
use vstd::utf8::encode_utf8;

verus! {

/// Whether `c` is white space: one of the characters that separate words.
/// These are the characters with the Unicode property White_Space.
pub open spec fn is_whitespace(c: char) -> bool {
    ||| '\u{9}' <= c <= '\u{d}'
    ||| c == ' '
    ||| c == '\u{85}'
    ||| c == '\u{a0}'
    ||| c == '\u{1680}'
    ||| '\u{2000}' <= c <= '\u{200a}'
    ||| c == '\u{2028}'
    ||| c == '\u{2029}'
    ||| c == '\u{202f}'
    ||| c == '\u{205f}'
    ||| c == '\u{3000}'
}

/// Whether a word starts at the last character of `s`: that character is
/// not white space, and is the first of all or comes after white space.
pub open spec fn word_starts_at_end(s: Seq<char>) -> bool {
    &&& s.len() > 0
    &&& !is_whitespace(s.last())
    &&& (s.len() == 1 || is_whitespace(s[s.len() - 2]))
}

/// The number of words in `s`: its maximal runs of characters that are not
/// white space.
pub open spec fn word_count(s: Seq<char>) -> nat
    decreases s.len(),
{
    if s.len() == 0 {
        0
    } else {
        word_count(s.drop_last()) + if word_starts_at_end(s) {
            1nat
        } else {
            0nat
        }
    }
}

/// The number of bytes that `s` takes up in UTF-8.
pub open spec fn byte_count(s: Seq<char>) -> nat {
    encode_utf8(s).len()
}

/// Every character takes up at least one byte.
pub proof fn lemma_chars_within_bytes(s: Seq<char>)
    ensures
        s.len() <= byte_count(s),
    decreases s.len(),
{
    if s.len() > 0 {
        lemma_chars_within_bytes(s.drop_first());
    }
}

/// Tells white space from other characters.
pub fn is_space(c: char) -> (space: bool)
    ensures
        space == is_whitespace(c),
{
    ('\u{9}' <= c && c <= '\u{d}') || c == ' ' || c == '\u{85}' || c == '\u{a0}' || c
        == '\u{1680}' || ('\u{2000}' <= c && c <= '\u{200a}') || c == '\u{2028}' || c
        == '\u{2029}' || c == '\u{202f}' || c == '\u{205f}' || c == '\u{3000}'
}

/// Counts the words, the characters and the bytes of `input`.
pub fn count_text(input: &str) -> (counts: (usize, usize, usize))
    ensures
        counts.0 == word_count(input@),
        counts.1 == input@.len(),
        counts.2 == byte_count(input@),
{
    let mut words: usize = 0;
    let mut chars: usize = 0;
    let mut in_word = false;
    let bytes = input.as_bytes().len();
    proof {
        lemma_chars_within_bytes(input@);
    }
    for c in it: input.chars()
        invariant
            it.seq() == input@,
            input@.len() <= bytes,
            chars == it.index(),
            words == word_count(input@.take(it.index() as int)),
            words <= chars,
            in_word == (it.index() > 0 && !is_whitespace(input@[it.index() - 1])),
    {
        proof {
            let upto = input@.take(it.index() + 1);
            assert(upto.drop_last() =~= input@.take(it.index() as int));
            assert(upto.last() == c);
            if it.index() > 0 {
                assert(upto[upto.len() - 2] == input@[it.index() - 1]);
            }
        }
        let space = is_space(c);
        if !space && !in_word {
            words = words + 1;
        }
        in_word = !space;
        chars = chars + 1;
    }
    assert(input@.take(input@.len() as int) =~= input@);
    (words, chars, bytes)
}

/// The counts of a text: its lines, words, characters and bytes.
#[derive(Clone, Copy, Debug, PartialEq, Eq, Structural)]
pub struct Counter {
    pub lines: usize,
    pub words: usize,
    pub chars: usize,
    pub bytes: usize,
}

impl Counter {
    /// The counts of no text at all: four zeros.
    pub fn new() -> (counter: Self)
        ensures
            counter == (Counter { lines: 0, words: 0, chars: 0, bytes: 0 }),
    {
        Counter { lines: 0, words: 0, chars: 0, bytes: 0 }
    }

    /// Whether the counts of one more line, `input`, can be added without
    /// any of the four leaving the range of the machine word.
    pub open spec fn has_room_for(self, input: Seq<char>) -> bool {
        &&& self.lines + 1 <= usize::MAX
        &&& self.words + word_count(input) <= usize::MAX
        &&& self.chars + input.len() <= usize::MAX
        &&& self.bytes + byte_count(input) <= usize::MAX
    }

    /// Tests whether [`Counter::cumulate_counter_values`] may be called
    /// with `input`.
    pub fn can_cumulate(&self, input: &str) -> (room: bool)
        ensures
            room == self.has_room_for(input@),
    {
        let (words, chars, bytes) = count_text(input);
        self.lines < usize::MAX && words <= usize::MAX - self.words && chars <= usize::MAX
            - self.chars && bytes <= usize::MAX - self.bytes
    }

    /// Adds the counts of one more line of text: one line, and the words,
    /// characters and bytes of `input`.
    pub fn cumulate_counter_values(&mut self, input: &str)
        requires
            old(self).has_room_for(input@),
        ensures
            final(self).lines == old(self).lines + 1,
            final(self).words == old(self).words + word_count(input@),
            final(self).chars == old(self).chars + input@.len(),
            final(self).bytes == old(self).bytes + byte_count(input@),
    {
        let (words, chars, bytes) = count_text(input);
        self.lines = self.lines + 1;
        self.words = self.words + words;
        self.chars = self.chars + chars;
        self.bytes = self.bytes + bytes;
    }

    /// The width of the widest of the four counts, in decimal digits.
    pub open spec fn widest(self) -> nat {
        let lines = decimal_digits(self.lines as nat).len();
        let words = decimal_digits(self.words as nat).len();
        let chars = decimal_digits(self.chars as nat).len();
        let bytes = decimal_digits(self.bytes as nat).len();
        let a = if lines >= words { lines } else { words };
        let b = if chars >= bytes { chars } else { bytes };
        if a >= b { a } else { b }
    }

    /// The number of digits of the count that takes the most digits to
    /// write.
    pub fn longest_count(&self) -> (width: usize)
        ensures
            width == self.widest(),
            1 <= width < usize::MAX,
    {
        let lines = decimal_width(self.lines);
        let words = decimal_width(self.words);
        let chars = decimal_width(self.chars);
        let bytes = decimal_width(self.bytes);
        let a = if lines >= words { lines } else { words };
        let b = if chars >= bytes { chars } else { bytes };
        if a >= b { a } else { b }
    }

    /// Whether the sum of these counts and `rhs` stays within the range of
    /// the machine word, count by count.
    pub open spec fn can_add(self, rhs: Counter) -> bool {
        &&& self.lines + rhs.lines <= usize::MAX
        &&& self.words + rhs.words <= usize::MAX
        &&& self.chars + rhs.chars <= usize::MAX
        &&& self.bytes + rhs.bytes <= usize::MAX
    }

    /// The sum of these counts and `rhs`, count by count.
    pub open spec fn plus(self, rhs: Counter) -> Counter {
        Counter {
            lines: (self.lines + rhs.lines) as usize,
            words: (self.words + rhs.words) as usize,
            chars: (self.chars + rhs.chars) as usize,
            bytes: (self.bytes + rhs.bytes) as usize,
        }
    }
}

impl core::ops::Add for Counter {
    type Output = Counter;

    /// Adds two sets of counts, count by count.
    fn add(self, rhs: Counter) -> (sum: Counter) {
        Counter {
            lines: self.lines + rhs.lines,
            words: self.words + rhs.words,
            chars: self.chars + rhs.chars,
            bytes: self.bytes + rhs.bytes,
        }
    }
}

impl AddSpecImpl for Counter {
    open spec fn obeys_add_spec() -> bool {
        true
    }

    open spec fn add_req(self, rhs: Counter) -> bool {
        self.can_add(rhs)
    }

    open spec fn add_spec(self, rhs: Counter) -> Counter {
        self.plus(rhs)
    }
}

} // verus!
