//! The extraction policy: a unit, a count and a direction, read from a
//! count argument of the form `[-]NUM`.

use crate::text::decimal::{parse_unsigned_from, unsigned_value};
use crate::text::strings::chars_of;
use vstd::prelude::*;

verus! {

/// The unit in which a policy counts.
#[derive(Clone, Copy, Debug, PartialEq, Eq, Structural)]
pub enum HeadKind {
    Bytes,
    Lines,
}

/// Where a policy counts from: the front of the stream (`Positive`), its
/// end (`Negative`), or nowhere, because the count is zero (`Zero`).
#[derive(Clone, Copy, Debug, PartialEq, Eq, Structural)]
pub enum Sign {
    Negative,
    Zero,
    Positive,
}

/// What a policy says, as mathematics.
pub struct PolicyModel {
    pub unit: HeadKind,
    pub magnitude: nat,
    pub sign: Sign,
}

impl PolicyModel {
    /// A zero sign goes with a zero magnitude, and with no other.
    pub open spec fn consistent(self) -> bool {
        (self.sign == Sign::Zero) <==> (self.magnitude == 0)
    }
}

/// The sign of a count of `magnitude` that was or was not marked as counted
/// from the end. A zero count has the zero sign whatever the mark.
pub open spec fn sign_of(magnitude: nat, from_end: bool) -> Sign {
    if magnitude == 0 {
        Sign::Zero
    } else if from_end {
        Sign::Negative
    } else {
        Sign::Positive
    }
}

/// Whether a count argument starts with the minus that marks counting from
/// the end.
pub open spec fn marked_from_end(token: Seq<char>) -> bool {
    token.len() > 0 && token[0] == '-'
}

/// The numeral part of a count argument: what follows the minus mark, or
/// the whole argument if it has none.
pub open spec fn count_numeral(token: Seq<char>) -> Seq<char> {
    if marked_from_end(token) {
        token.skip(1)
    } else {
        token
    }
}

/// The policy that a count argument asks for in the given unit, if it is a
/// count whose magnitude fits the machine word.
pub open spec fn parsed_policy(unit: HeadKind, token: Seq<char>) -> Option<PolicyModel> {
    match unsigned_value(count_numeral(token)) {
        Some(n) => if n <= usize::MAX {
            Some(PolicyModel { unit, magnitude: n, sign: sign_of(n, marked_from_end(token)) })
        } else {
            None
        },
        None => None,
    }
}

/// A count argument that is malformed or out of range, with the unit it was
/// given for.
#[derive(Debug, PartialEq, Eq)]
pub struct InvalidCount {
    pub unit: HeadKind,
    pub token: String,
}

/// The text that introduces a rejected count of the given unit.
pub open spec fn invalid_count_prefix(unit: HeadKind) -> Seq<char> {
    match unit {
        HeadKind::Bytes => "illegal byte count -- "@,
        HeadKind::Lines => "illegal line count -- "@,
    }
}

impl InvalidCount {
    /// The diagnostic for this error: it names the unit and quotes the
    /// offending argument unchanged.
    pub fn message(&self) -> (text: String)
        ensures
            text@ == invalid_count_prefix(self.unit) + self.token@,
    {
        let mut text = String::new();
        match self.unit {
            HeadKind::Bytes => text.append("illegal byte count -- "),
            HeadKind::Lines => text.append("illegal line count -- "),
        }
        text.append(self.token.as_str());
        text
    }
}

/// How much of a stream to keep: a unit, a magnitude, and a sign that is
/// zero exactly when the magnitude is.
#[derive(Clone, Copy, Debug, PartialEq, Eq, Structural)]
pub struct ExtractionPolicy {
    unit: HeadKind,
    magnitude: usize,
    sign: Sign,
}

impl View for ExtractionPolicy {
    type V = PolicyModel;

    closed spec fn view(&self) -> PolicyModel {
        PolicyModel { unit: self.unit, magnitude: self.magnitude as nat, sign: self.sign }
    }
}

impl ExtractionPolicy {
    #[verifier::type_invariant]
    spec fn sign_matches_magnitude(self) -> bool {
        (self.sign == Sign::Zero) <==> (self.magnitude == 0)
    }

    /// The policy that counts `magnitude` units, from the end if `from_end`
    /// is set and from the front otherwise.
    pub fn new(unit: HeadKind, magnitude: usize, from_end: bool) -> (policy: Self)
        ensures
            policy@ == (PolicyModel {
                unit,
                magnitude: magnitude as nat,
                sign: sign_of(magnitude as nat, from_end),
            }),
            policy@.consistent(),
    {
        let sign = if magnitude == 0 {
            Sign::Zero
        } else if from_end {
            Sign::Negative
        } else {
            Sign::Positive
        };
        ExtractionPolicy { unit, magnitude, sign }
    }

    /// Reads a count argument of the form `[-]NUM` into a policy for `unit`.
    ///
    /// A leading minus asks for counting from the end. What follows must be
    /// an unsigned numeral that fits the machine word; any other argument is
    /// rejected, and the error quotes it.
    pub fn parse(unit: HeadKind, token: &str) -> (r: Result<Self, InvalidCount>)
        ensures
            match r {
                Ok(policy) => parsed_policy(unit, token@) == Some(policy@) && policy@.consistent(),
                Err(e) => parsed_policy(unit, token@) is None && e.unit == unit && e.token@
                    == token@,
            },
    {
        let chars = chars_of(token);
        let from_end = chars.len() > 0 && chars[0] == '-';
        let start: usize = if from_end {
            1
        } else {
            0
        };
        proof {
            assert(chars@.skip(0) =~= chars@);
        }
        match parse_unsigned_from(&chars, start) {
            Some(magnitude) => Ok(Self::new(unit, magnitude, from_end)),
            None => Err(InvalidCount { unit, token: token.to_owned() }),
        }
    }

    /// The unit this policy counts in.
    pub fn unit(&self) -> (unit: HeadKind)
        ensures
            unit == self@.unit,
    {
        self.unit
    }

    /// The count, without its direction.
    pub fn magnitude(&self) -> (magnitude: usize)
        ensures
            magnitude == self@.magnitude,
    {
        self.magnitude
    }

    /// The direction of the count; zero exactly when the count is.
    pub fn sign(&self) -> (sign: Sign)
        ensures
            sign == self@.sign,
            self@.consistent(),
    {
        proof {
            use_type_invariant(self);
        }
        self.sign
    }
}

/// Accepts or rejects a count argument given in the unit `unit`.
fn valid_number(unit: HeadKind, input: &str) -> (r: Result<(), String>)
    ensures
        match r {
            Ok(_) => parsed_policy(unit, input@) is Some,
            Err(message) => parsed_policy(unit, input@) is None && message@
                == invalid_count_prefix(unit) + input@,
        },
{
    match ExtractionPolicy::parse(unit, input) {
        Ok(_) => Ok(()),
        Err(e) => Err(e.message()),
    }
}

/// Accepts a byte count of the form `[-]NUM` that fits the machine word,
/// and rejects any other argument with a message that quotes it.
pub fn valid_byte_number(input: &str) -> (r: Result<(), String>)
    ensures
        match r {
            Ok(_) => parsed_policy(HeadKind::Bytes, input@) is Some,
            Err(message) => parsed_policy(HeadKind::Bytes, input@) is None && message@
                == "illegal byte count -- "@ + input@,
        },
{
    valid_number(HeadKind::Bytes, input)
}

/// Accepts a line count of the form `[-]NUM` that fits the machine word,
/// and rejects any other argument with a message that quotes it.
pub fn valid_line_number(input: &str) -> (r: Result<(), String>)
    ensures
        match r {
            Ok(_) => parsed_policy(HeadKind::Lines, input@) is Some,
            Err(message) => parsed_policy(HeadKind::Lines, input@) is None && message@
                == "illegal line count -- "@ + input@,
        },
{
    valid_number(HeadKind::Lines, input)
}

impl Default for ExtractionPolicy {
    /// The policy in force when no count is given: the first ten lines.
    fn default() -> (policy: Self)
        ensures
            policy@ == (PolicyModel { unit: HeadKind::Lines, magnitude: 10, sign: Sign::Positive }),
    {
        ExtractionPolicy { unit: HeadKind::Lines, magnitude: 10, sign: Sign::Positive }
    }
}

} // verus!
