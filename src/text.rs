use vstd::prelude::*;
use vstd::string::*;
use crate::time::{is_time_text, TIME_PATTERN};
use crate::volume::{is_percent_text, PERCENT_PATTERN};

verus! {

/// The character of a decimal digit.
pub open spec fn digit_char(d: nat) -> char {
    (d + '0' as nat) as char
}

/// Decimal notation of `n`, without leading zeros.
pub open spec fn decimal(n: nat) -> Seq<char>
    decreases n,
{
    if n < 10 {
        seq![digit_char(n)]
    } else {
        decimal(n / 10).push(digit_char(n % 10))
    }
}

/// The one-character text of a digit.
pub(crate) fn digit_text(d: u32) -> (r: &'static str)
    requires
        d < 10,
    ensures
        r@ == seq![digit_char(d as nat)],
{
    let digits = "0123456789";
    proof {
        reveal_strlit("0123456789");
    }
    let r = digits.substring_char(d as usize, d as usize + 1);
    assert(r@ =~= seq![digit_char(d as nat)]);
    r
}

/// Appends the decimal notation of `n`.
pub(crate) fn push_decimal(out: &mut String, n: u32)
    ensures
        final(out)@ == old(out)@ + decimal(n as nat),
    decreases n,
{
    if n >= 10 {
        push_decimal(out, n / 10);
    }
    out.append(digit_text(n % 10));
}

/// Why a text could not be read as a time or a volume.
#[derive(Debug, Clone, Copy, PartialEq, Eq, Structural)]
pub enum FormatError {
    /// The text does not have the expected shape.
    Shape,
    /// The text has the expected shape, but its value does not fit in 32 bits.
    TooLarge,
}

/// An ASCII decimal digit.
pub open spec fn is_digit(c: char) -> bool {
    '0' <= c <= '9'
}

/// Every character is an ASCII decimal digit.
pub open spec fn all_digits(d: Seq<char>) -> bool {
    forall|i: int| 0 <= i < d.len() ==> is_digit(#[trigger] d[i])
}

/// The value of a run of decimal digits (zero for an empty run).
pub open spec fn digits_value(d: Seq<char>) -> nat
    decreases d.len(),
{
    if d.len() == 0 {
        0
    } else {
        digits_value(d.drop_last()) * 10 + (d.last() as nat - '0' as nat) as nat
    }
}

/// One past the largest 32-bit value: where the readers below stop counting.
pub(crate) const SATURATED: u64 = 0x1_0000_0000;

/// `v`, or `SATURATED` when `v` is not below it.
pub(crate) open spec fn capped(v: nat) -> nat {
    if v < SATURATED {
        v
    } else {
        SATURATED as nat
    }
}

pub(crate) proof fn lemma_digit_char(d: nat)
    requires
        d < 10,
    ensures
        digit_char(d) as nat == d + '0' as nat,
        is_digit(digit_char(d)),
{
}

pub(crate) proof fn lemma_decimal(n: nat)
    ensures
        decimal(n).len() > 0,
        all_digits(decimal(n)),
        digits_value(decimal(n)) == n,
    decreases n,
{
    lemma_digit_char(n % 10);
    if n >= 10 {
        lemma_decimal(n / 10);
        let d = decimal(n);
        assert(d.drop_last() == decimal(n / 10));
        assert(d.last() == digit_char(n % 10));
        assert(digits_value(d) == digits_value(d.drop_last()) * 10 + (d.last() as nat - '0' as nat) as nat);
        assert(digits_value(d) == (n / 10) * 10 + n % 10);
        assert forall|i: int| 0 <= i < d.len() implies is_digit(#[trigger] d[i]) by {
            if i < d.len() - 1 {
                assert(d[i] == decimal(n / 10)[i]);
            }
        }
    } else {
        let d = seq![digit_char(n)];
        assert(d.drop_last() =~= Seq::<char>::empty());
        assert(digits_value(d) == digits_value(d.drop_last()) * 10 + (d.last() as nat - '0' as nat) as nat);
    }
}

/// Reads the first `end` characters of `text`, all digits, as a decimal number,
/// capped at `SATURATED`.
pub(crate) fn read_digits(text: &str, end: usize) -> (r: u64)
    requires
        end <= text@.len(),
        all_digits(text@.take(end as int)),
    ensures
        r == capped(digits_value(text@.take(end as int))),
{
    let mut value: u64 = 0;
    let mut i: usize = 0;
    while i < end
        invariant
            end <= text@.len(),
            all_digits(text@.take(end as int)),
            i <= end,
            value == capped(digits_value(text@.take(i as int))),
        decreases end - i,
    {
        let c = text.get_char(i);
        assert(text@.take(end as int)[i as int] == c);
        let d = (c as u32 - '0' as u32) as u64;
        assert(text@.take(i + 1).drop_last() =~= text@.take(i as int));
        value = if value * 10 + d >= SATURATED { SATURATED } else { value * 10 + d };
        i = i + 1;
    }
    value
}

/// Relies on regex::Regex::new and regex::Regex::is_match: both patterns
/// compile, `[0-9]` is an ASCII digit, and without the multi-line flag `^` and
/// `$` match only at the start and the end of the whole text.
#[verifier::external_body]
pub(crate) fn full_match(pattern: &str, text: &str) -> (r: bool)
    requires
        pattern@ == TIME_PATTERN@ || pattern@ == PERCENT_PATTERN@,
    ensures
        pattern@ == TIME_PATTERN@ ==> r == is_time_text(text@),
        pattern@ == PERCENT_PATTERN@ ==> r == is_percent_text(text@),
{
    regex::Regex::new(pattern).unwrap().is_match(text)
}

} // verus!
