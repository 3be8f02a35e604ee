//! Decimal numerals: what a numeral denotes, and reading one from text.

use crate::text::strings::chars_of;
use vstd::prelude::*;

verus! {

/// Whether `c` is one of the ten ASCII decimal digits.
pub open spec fn is_digit(c: char) -> bool {
    '0' <= c && c <= '9'
}

/// The number a decimal digit stands for.
pub open spec fn digit_value(c: char) -> nat
    recommends
        is_digit(c),
{
    (c as int - '0' as int) as nat
}

/// Whether every character of `s` is a decimal digit.
pub open spec fn all_digits(s: Seq<char>) -> bool {
    forall|i: int| 0 <= i < s.len() ==> is_digit(#[trigger] s[i])
}

/// The number denoted by a string of digits, most significant digit first.
/// The empty string denotes zero.
pub open spec fn decimal_value(digits: Seq<char>) -> nat
    decreases digits.len(),
{
    if digits.len() == 0 {
        0
    } else {
        10 * decimal_value(digits.drop_last()) + digit_value(digits.last())
    }
}

/// The digits of an unsigned numeral: the text itself, without a leading
/// plus sign if it has one.
pub open spec fn unsigned_digits(s: Seq<char>) -> Seq<char> {
    if s.len() > 0 && s[0] == '+' {
        s.skip(1)
    } else {
        s
    }
}

/// The number that `s` denotes as an unsigned numeral, if it is one: an
/// optional plus sign followed by at least one digit and nothing else.
pub open spec fn unsigned_value(s: Seq<char>) -> Option<nat> {
    let digits = unsigned_digits(s);
    if digits.len() > 0 && all_digits(digits) {
        Some(decimal_value(digits))
    } else {
        None
    }
}

/// A longer numeral never denotes less than any of its prefixes.
pub proof fn lemma_decimal_value_prefix(digits: Seq<char>, n: int)
    requires
        0 <= n <= digits.len(),
    ensures
        decimal_value(digits.take(n)) <= decimal_value(digits),
    decreases digits.len() - n,
{
    if n == digits.len() {
        assert(digits.take(n) =~= digits);
    } else {
        lemma_decimal_value_prefix(digits, n + 1);
        assert(digits.take(n + 1).drop_last() =~= digits.take(n));
    }
}

/// Reads the digits of `text` from position `from` to the end as one number.
///
/// Gives the number when that stretch is a non-empty run of digits whose
/// value fits the machine word, and `None` otherwise.
fn read_digits(text: &Vec<char>, from: usize) -> (r: Option<usize>)
    requires
        from <= text.len(),
    ensures
        r is Some <==> {
            &&& from < text.len()
            &&& all_digits(text@.skip(from as int))
            &&& decimal_value(text@.skip(from as int)) <= usize::MAX
        },
        r is Some ==> r->0 == decimal_value(text@.skip(from as int)),
{
    let ghost digits = text@.skip(from as int);
    if from == text.len() {
        return None;
    }
    let mut value: usize = 0;
    let mut i: usize = from;
    while i < text.len()
        invariant
            from <= i <= text.len(),
            digits == text@.skip(from as int),
            all_digits(digits.take(i - from)),
            value == decimal_value(digits.take(i - from)),
        decreases text.len() - i,
    {
        let c = text[i];
        proof {
            assert(digits[i - from] == c);
            assert(digits.take(i - from + 1).drop_last() =~= digits.take(i - from));
            assert(digits.take(i - from + 1).last() == c);
        }
        if c < '0' || c > '9' {
            return None;
        }
        let d: usize = (c as u32 - '0' as u32) as usize;
        let next = match value.checked_mul(10) {
            Some(v) => v.checked_add(d),
            None => None,
        };
        match next {
            Some(v) => {
                value = v;
            },
            None => {
                proof {
                    lemma_decimal_value_prefix(digits, i - from + 1);
                }
                return None;
            },
        }
        i = i + 1;
    }
    proof {
        assert(digits.take(i - from) =~= digits);
    }
    Some(value)
}

/// Reads the characters of `text` from position `from` to the end as an
/// unsigned numeral.
pub(crate) fn parse_unsigned_from(text: &Vec<char>, from: usize) -> (r: Option<usize>)
    requires
        from <= text.len(),
    ensures
        r is Some <==> {
            &&& unsigned_value(text@.skip(from as int)) is Some
            &&& unsigned_value(text@.skip(from as int))->0 <= usize::MAX
        },
        r is Some ==> Some(r->0 as nat) == unsigned_value(text@.skip(from as int)),
{
    if from < text.len() && text[from] == '+' {
        proof {
            assert(text@.skip(from as int).skip(1) =~= text@.skip(from + 1));
        }
        read_digits(text, from + 1)
    } else {
        read_digits(text, from)
    }
}

/// Reads `text` as an unsigned numeral.
///
/// Gives the number when the text is an optional plus sign followed by
/// digits whose value fits the machine word, and `None` otherwise.
pub fn parse_unsigned(text: &str) -> (r: Option<usize>)
    ensures
        r is Some <==> unsigned_value(text@) is Some && unsigned_value(text@)->0 <= usize::MAX,
        r is Some ==> Some(r->0 as nat) == unsigned_value(text@),
{
    let chars = chars_of(text);
    proof {
        assert(chars@.skip(0) =~= chars@);
    }
    parse_unsigned_from(&chars, 0)
}

/// The digit that stands for a number below ten.
pub open spec fn digit_char(d: nat) -> char
    recommends
        d < 10,
{
    ('0' as nat + d) as char
}

/// The decimal numeral of `n`: its digits, most significant first, with no
/// leading zero except for zero itself.
pub open spec fn decimal_digits(n: nat) -> Seq<char>
    decreases n,
{
    if n < 10 {
        seq![digit_char(n)]
    } else {
        decimal_digits(n / 10).push(digit_char(n % 10))
    }
}

/// The numeral of `n` pushed to the right of a field of `width` characters
/// by spaces on its left. A numeral wider than the field is left as it is.
pub open spec fn padded_decimal(n: nat, width: nat) -> Seq<char> {
    let digits = decimal_digits(n);
    if digits.len() < width {
        Seq::new((width - digits.len()) as nat, |i: int| ' ') + digits
    } else {
        digits
    }
}

/// The numeral of a number consists of digits and denotes that number.
pub proof fn numeral_denotes_its_number(n: nat)
    ensures
        all_digits(decimal_digits(n)),
        decimal_value(decimal_digits(n)) == n,
        decimal_digits(n).len() >= 1,
    decreases n,
{
    if n < 10 {
        let digits = decimal_digits(n);
        assert(digits.drop_last() =~= Seq::<char>::empty());
        assert(decimal_value(digits.drop_last()) == 0);
    } else {
        numeral_denotes_its_number(n / 10);
        let digits = decimal_digits(n);
        assert(digits.drop_last() =~= decimal_digits(n / 10));
    }
}

/// A numeral has at most one digit more than a tenth of its number: far
/// fewer digits than the machine word can count.
pub proof fn lemma_decimal_width_bound(n: nat)
    ensures
        decimal_digits(n).len() <= n / 10 + 1,
    decreases n,
{
    if n >= 10 {
        lemma_decimal_width_bound(n / 10);
    }
}

/// The number of digits in the numeral of `n`.
pub fn decimal_width(n: usize) -> (width: usize)
    ensures
        width == decimal_digits(n as nat).len(),
        width >= 1,
        width < usize::MAX,
{
    proof {
        lemma_decimal_width_bound(n as nat);
    }
    let mut width: usize = 1;
    let mut rest: usize = n;
    while rest >= 10
        invariant
            width + decimal_digits(rest as nat).len() == decimal_digits(n as nat).len() + 1,
            decimal_digits(n as nat).len() <= n / 10 + 1,
        decreases rest,
    {
        rest = rest / 10;
        width = width + 1;
    }
    width
}

/// Appends the digit that stands for `d` to `out`.
fn push_digit(out: &mut String, d: usize)
    requires
        d < 10,
    ensures
        final(out)@ == old(out)@.push(digit_char(d as nat)),
{
    proof {
        reveal_strlit("0");
        reveal_strlit("1");
        reveal_strlit("2");
        reveal_strlit("3");
        reveal_strlit("4");
        reveal_strlit("5");
        reveal_strlit("6");
        reveal_strlit("7");
        reveal_strlit("8");
        reveal_strlit("9");
    }
    let digit: &str = match d {
        0 => "0",
        1 => "1",
        2 => "2",
        3 => "3",
        4 => "4",
        5 => "5",
        6 => "6",
        7 => "7",
        8 => "8",
        _ => "9",
    };
    assert(digit@ =~= seq![digit_char(d as nat)]);
    out.append(digit);
    assert(out@ =~= old(out)@.push(digit_char(d as nat)));
}

/// Appends the numeral of `n` to `out`.
pub fn push_decimal(out: &mut String, n: usize)
    ensures
        final(out)@ == old(out)@ + decimal_digits(n as nat),
    decreases n,
{
    if n >= 10 {
        push_decimal(out, n / 10);
    }
    push_digit(out, n % 10);
    assert(out@ =~= old(out)@ + decimal_digits(n as nat));
}

/// Appends the numeral of `n` to `out`, pushed to the right of a field of
/// `width` characters.
pub fn push_padded_decimal(out: &mut String, n: usize, width: usize)
    ensures
        final(out)@ == old(out)@ + padded_decimal(n as nat, width as nat),
{
    let digits = decimal_width(n);
    let mut filled: usize = digits;
    while filled < width
        invariant
            digits == decimal_digits(n as nat).len(),
            digits <= filled,
            digits < width ==> filled <= width,
            digits >= width ==> filled == digits,
            out@ == old(out)@ + Seq::new((filled - digits) as nat, |i: int| ' '),
        decreases width - filled,
    {
        proof {
            reveal_strlit(" ");
        }
        out.append(" ");
        assert(out@ =~= old(out)@ + Seq::new((filled + 1 - digits) as nat, |i: int| ' '));
        filled = filled + 1;
    }
    let ghost padding = Seq::new((filled - digits) as nat, |i: int| ' ');
    push_decimal(out, n);
    proof {
        if digits < width {
            assert(filled == width);
        } else {
            assert(padding =~= Seq::<char>::empty());
        }
        assert(out@ =~= old(out)@ + (padding + decimal_digits(n as nat)));
        assert(padding + decimal_digits(n as nat) =~= padded_decimal(n as nat, width as nat));
    }
}

} // verus!
