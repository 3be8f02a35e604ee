//! Writing the arguments back out, joined by spaces or not, with or without
//! a newline at the end.

use vstd::prelude::*;

verus! {

/// How the arguments are written.
#[derive(Clone, Copy, Debug, PartialEq, Eq, Structural)]
pub struct Opt {
    pub newline: bool,
    pub space_seperated_arguments: bool,
}

/// The strings of `words` one after another, with `gap` between each two of
/// them.
pub open spec fn joined(words: Seq<String>, gap: Seq<char>) -> Seq<char>
    decreases words.len(),
{
    if words.len() == 0 {
        Seq::empty()
    } else if words.len() == 1 {
        words[0]@
    } else {
        joined(words.drop_last(), gap) + gap + words.last()@
    }
}

/// The text written for `words` under `opt`: the words, with single
/// spaces between them if asked for, and a newline at the end if asked for.
pub open spec fn echoed(opt: Opt, words: Seq<String>) -> Seq<char> {
    joined(
        words,
        if opt.space_seperated_arguments {
            " "@
        } else {
            Seq::empty()
        },
    ) + if opt.newline {
        "\n"@
    } else {
        Seq::empty()
    }
}

impl Opt {
    /// Builds the options from the two flags that switch a default off, and
    /// hands the strings through.
    pub fn parse_arguments(no_newline: bool, no_space_separators: bool, strings: Vec<String>) -> (r:
        (Self, Vec<String>))
        ensures
            r.0 == (Opt { newline: !no_newline, space_seperated_arguments: !no_space_separators }),
            r.1 == strings,
    {
        (Opt { newline: !no_newline, space_seperated_arguments: !no_space_separators }, strings)
    }

    /// The text to write for `output`.
    pub fn print_string(&self, output: &Vec<String>) -> (text: String)
        ensures
            text@ == echoed(*self, output@),
    {
        let mut text = String::new();
        let mut i: usize = 0;
        let ghost gap = if self.space_seperated_arguments {
            " "@
        } else {
            Seq::<char>::empty()
        };
        while i < output.len()
            invariant
                i <= output.len(),
                gap == if self.space_seperated_arguments {
                    " "@
                } else {
                    Seq::<char>::empty()
                },
                text@ == joined(output@.take(i as int), gap),
            decreases output.len() - i,
        {
            proof {
                let upto = output@.take(i + 1);
                assert(upto.drop_last() =~= output@.take(i as int));
                assert(upto.last() == output@[i as int]);
            }
            if i > 0 && self.space_seperated_arguments {
                text.append(" ");
            }
            text.append(output[i].as_str());
            proof {
                if i == 0 {
                    assert(text@ =~= output@[0]@);
                } else if !self.space_seperated_arguments {
                    assert(text@ =~= joined(output@.take(i as int), gap) + gap + output@[i as int]@);
                }
            }
            i = i + 1;
        }
        assert(output@.take(output@.len() as int) =~= output@);
        if self.newline {
            text.append("\n");
        }
        text
    }
}

} // verus!
