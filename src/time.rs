use vstd::prelude::*;
use vstd::string::*;
use crate::text::{
    full_match, all_digits, capped, digit_char, digits_value, decimal, digit_text, is_digit, lemma_decimal,
    lemma_digit_char, push_decimal, FormatError, SATURATED,
};
use vstd::std_specs::cmp::PartialOrdSpec;

verus! {

/// A playback position, in whole seconds.
#[derive(Debug, Clone, Copy, PartialEq, Eq, Structural)]
pub struct Time(pub u32);

impl Time {
    pub fn as_seconds(&self) -> (r: u32)
        ensures
            r == self.0,
    {
        self.0
    }

    /// A position given as a number of seconds by a machine source; like a cast
    /// to 32 bits, only the low 32 bits of the number are kept.
    pub fn from_numeric(seconds: u64) -> (r: Time)
        ensures
            r.0 == seconds % 0x1_0000_0000,
    {
        Time((seconds % 0x1_0000_0000) as u32)
    }
}

/// Seconds from `time2` to `time1`; zero when `time1` comes first.
pub open spec fn seconds_between(time1: Time, time2: Time) -> nat {
    if time1.0 >= time2.0 {
        (time1.0 - time2.0) as nat
    } else {
        0
    }
}

/// Seconds from `time2` to `time1`; zero when `time1` comes first.
pub fn difference(time1: Time, time2: Time) -> (r: u32)
    ensures
        r == seconds_between(time1, time2),
{
    if time1.0 >= time2.0 {
        time1.0 - time2.0
    } else {
        0
    }
}

impl From<u32> for Time {
    fn from(value: u32) -> (r: Time) {
        Time(value)
    }
}

impl vstd::std_specs::convert::FromSpecImpl<u32> for Time {
    open spec fn obeys_from_spec() -> bool {
        true
    }

    open spec fn from_spec(v: u32) -> Time {
        Time(v)
    }
}

impl PartialOrd for Time {
    fn partial_cmp(&self, other: &Time) -> (r: Option<core::cmp::Ordering>) {
        if self.0 < other.0 {
            Some(core::cmp::Ordering::Less)
        } else if self.0 > other.0 {
            Some(core::cmp::Ordering::Greater)
        } else {
            Some(core::cmp::Ordering::Equal)
        }
    }
}

impl vstd::std_specs::cmp::PartialOrdSpecImpl for Time {
    open spec fn obeys_partial_cmp_spec() -> bool {
        true
    }

    open spec fn partial_cmp_spec(&self, other: &Time) -> Option<core::cmp::Ordering> {
        if self.0 < other.0 {
            Some(core::cmp::Ordering::Less)
        } else if self.0 > other.0 {
            Some(core::cmp::Ordering::Greater)
        } else {
            Some(core::cmp::Ordering::Equal)
        }
    }
}

/// Decimal notation of `n`, padded with a zero to at least two digits.
pub open spec fn two_digits(n: nat) -> Seq<char> {
    if n < 10 {
        seq!['0', digit_char(n)]
    } else {
        decimal(n)
    }
}

/// The canonical text of a position: `MM:SS` below one hour, `HH:MM:SS` from one hour on.
pub open spec fn time_text(s: nat) -> Seq<char> {
    if s >= 3600 {
        two_digits(s / 3600) + seq![':'] + two_digits(s % 3600 / 60) + seq![':'] + two_digits(s % 60)
    } else {
        two_digits(s / 60) + seq![':'] + two_digits(s % 60)
    }
}

fn push_two_digits(out: &mut String, n: u32)
    ensures
        final(out)@ == old(out)@ + two_digits(n as nat),
{
    if n < 10 {
        proof {
            reveal_strlit("0");
        }
        out.append("0");
        out.append(digit_text(n));
    } else {
        push_decimal(out, n);
    }
}

impl Time {
    /// The canonical text of this position (`02:05`, `01:02:05`).
    pub fn to_text(&self) -> (r: String)
        ensures
            r@ == time_text(self.0 as nat),
    {
        let s = self.0;
        let mut out = String::new();
        proof {
            reveal_strlit(":");
        }
        if s >= 3600 {
            push_two_digits(&mut out, s / 3600);
            out.append(":");
            push_two_digits(&mut out, s % 3600 / 60);
            out.append(":");
            push_two_digits(&mut out, s % 60);
        } else {
            push_two_digits(&mut out, s / 60);
            out.append(":");
            push_two_digits(&mut out, s % 60);
        }
        out
    }
}

/// The pieces of `s` between colons, from left to right.
pub open spec fn colon_fields(s: Seq<char>) -> Seq<Seq<char>>
    decreases s.len(),
{
    if s.len() == 0 {
        seq![Seq::empty()]
    } else {
        let fs = colon_fields(s.drop_last());
        if s.last() == ':' {
            fs.push(Seq::empty())
        } else {
            fs.update(fs.len() - 1, fs.last().push(s.last()))
        }
    }
}

/// One to three non-empty runs of ASCII digits separated by colons,
/// the language of the pattern `^([0-9]+:){0,2}[0-9]+$`.
pub open spec fn is_time_text(s: Seq<char>) -> bool {
    let fs = colon_fields(s);
    &&& fs.len() <= 3
    &&& forall|k: int| 0 <= k < fs.len() ==> #[trigger] fs[k].len() > 0 && all_digits(fs[k])
}

/// Fields read from the left, each worth sixty of the field after it.
pub open spec fn fields_seconds(fs: Seq<Seq<char>>) -> nat
    decreases fs.len(),
{
    if fs.len() == 0 {
        0
    } else {
        fields_seconds(fs.drop_last()) * 60 + digits_value(fs.last())
    }
}

/// The number of seconds that a text of the form `[H:]M:S` (or `S`) stands for.
pub open spec fn time_text_seconds(s: Seq<char>) -> nat {
    fields_seconds(colon_fields(s))
}

/// What reading `s` as a time gives.
pub open spec fn parse_time(s: Seq<char>) -> Result<Time, FormatError> {
    if !is_time_text(s) {
        Err(FormatError::Shape)
    } else if time_text_seconds(s) > u32::MAX {
        Err(FormatError::TooLarge)
    } else {
        Ok(Time(time_text_seconds(s) as u32))
    }
}

/// The pattern that a time text matches.
pub const TIME_PATTERN: &'static str = "^([0-9]+:){0,2}[0-9]+$";

proof fn lemma_colon_fields_nonempty(s: Seq<char>)
    ensures
        colon_fields(s).len() >= 1,
    decreases s.len(),
{
    if s.len() > 0 {
        lemma_colon_fields_nonempty(s.drop_last());
    }
}

/// When every field is made of digits, every character is a digit or a colon.
proof fn lemma_fields_digits(s: Seq<char>)
    requires
        forall|k: int| 0 <= k < colon_fields(s).len() ==> all_digits(#[trigger] colon_fields(s)[k]),
    ensures
        forall|j: int| 0 <= j < s.len() ==> s[j] == ':' || is_digit(#[trigger] s[j]),
    decreases s.len(),
{
    if s.len() > 0 {
        let p = s.drop_last();
        let fs = colon_fields(p);
        lemma_colon_fields_nonempty(p);
        let n = colon_fields(s);
        assert forall|k: int| 0 <= k < fs.len() implies all_digits(#[trigger] fs[k]) by {
            if s.last() != ':' && k == fs.len() - 1 {
                assert(n[k] == fs[k].push(s.last()));
                assert forall|i: int| 0 <= i < fs[k].len() implies is_digit(#[trigger] fs[k][i]) by {
                    assert(fs[k][i] == n[k][i]);
                }
            } else {
                assert(n[k] == fs[k]);
            }
        }
        lemma_fields_digits(p);
        assert forall|j: int| 0 <= j < s.len() implies s[j] == ':' || is_digit(#[trigger] s[j]) by {
            if j < s.len() - 1 {
                assert(s[j] == p[j]);
            } else if s.last() != ':' {
                let k = fs.len() - 1;
                assert(n[k] == fs[k].push(s.last()));
                assert(n[k][n[k].len() - 1] == s.last());
            }
        }
    }
}

impl Time {
    /// Reads a position written as seconds (`125`) or as `[H:]M:S` (`02:05`, `1:02:05`).
    pub fn from_text(text: &str) -> (r: Result<Time, FormatError>)
        ensures
            r == parse_time(text@),
    {
        if !full_match(TIME_PATTERN, text) {
            return Err(FormatError::Shape);
        }
        proof {
            lemma_fields_digits(text@);
        }
        let n = text.unicode_len();
        let mut total: u64 = 0;
        let mut current: u64 = 0;
        let mut i: usize = 0;
        while i < n
            invariant
                n == text@.len(),
                i <= n,
                forall|j: int| 0 <= j < text@.len() ==> text@[j] == ':' || is_digit(#[trigger] text@[j]),
                colon_fields(text@.take(i as int)).len() >= 1,
                total == capped(fields_seconds(colon_fields(text@.take(i as int)).drop_last())),
                current == capped(digits_value(colon_fields(text@.take(i as int)).last())),
            decreases n - i,
        {
            let c = text.get_char(i);
            let ghost before = colon_fields(text@.take(i as int));
            let ghost after = colon_fields(text@.take(i + 1));
            assert(text@.take(i + 1).drop_last() =~= text@.take(i as int));
            if c == ':' {
                total = if total * 60 + current >= SATURATED { SATURATED } else { total * 60 + current };
                current = 0;
                assert(after.drop_last() =~= before);
            } else {
                let d = (c as u32 - '0' as u32) as u64;
                current = if current * 10 + d >= SATURATED { SATURATED } else { current * 10 + d };
                assert(after.drop_last() =~= before.drop_last());
                assert(after.last() == before.last().push(c));
                assert(after.last().drop_last() =~= before.last());
            }
            i = i + 1;
        }
        assert(text@.take(n as int) =~= text@);
        let seconds = if total * 60 + current >= SATURATED { SATURATED } else { total * 60 + current };
        if seconds == SATURATED {
            Err(FormatError::TooLarge)
        } else {
            Ok(Time(seconds as u32))
        }
    }
}

proof fn lemma_two_digits(n: nat)
    ensures
        two_digits(n).len() > 0,
        all_digits(two_digits(n)),
        digits_value(two_digits(n)) == n,
{
    lemma_decimal(n);
    if n < 10 {
        lemma_digit_char(n);
        let d = two_digits(n);
        let z = seq!['0'];
        assert(d.drop_last() =~= z);
        assert(z.drop_last() =~= Seq::<char>::empty());
        assert(digits_value(z) == digits_value(z.drop_last()) * 10 + (z.last() as nat - '0' as nat) as nat);
        assert(digits_value(z) == 0);
        assert(digits_value(d) == digits_value(d.drop_last()) * 10 + (d.last() as nat - '0' as nat) as nat);
    }
}

/// A run without colons is a single field.
proof fn lemma_fields_of_digits(x: Seq<char>)
    requires
        all_digits(x),
    ensures
        colon_fields(x) == seq![x],
    decreases x.len(),
{
    if x.len() > 0 {
        let p = x.drop_last();
        assert forall|i: int| 0 <= i < p.len() implies is_digit(#[trigger] p[i]) by {
            assert(p[i] == x[i]);
        }
        lemma_fields_of_digits(p);
        assert(is_digit(x[x.len() - 1]));
        assert(p.push(x.last()) =~= x);
        assert(colon_fields(x) =~= seq![x]);
    } else {
        assert(x =~= Seq::<char>::empty());
        assert(colon_fields(x) =~= seq![x]);
    }
}

/// A colon followed by a run of digits adds that run as a new field.
proof fn lemma_fields_after_colon(a: Seq<char>, y: Seq<char>)
    requires
        all_digits(y),
    ensures
        colon_fields(a + seq![':'] + y) == colon_fields(a).push(y),
    decreases y.len(),
{
    let s = a + seq![':'] + y;
    if y.len() == 0 {
        assert(s.drop_last() =~= a);
        assert(s =~= a + seq![':']);
        assert(y =~= Seq::<char>::empty());
    } else {
        let q = y.drop_last();
        assert forall|i: int| 0 <= i < q.len() implies is_digit(#[trigger] q[i]) by {
            assert(q[i] == y[i]);
        }
        lemma_fields_after_colon(a, q);
        assert(s.drop_last() =~= a + seq![':'] + q);
        assert(is_digit(y[y.len() - 1]));
        assert(q.push(y.last()) =~= y);
        assert(colon_fields(s) =~= colon_fields(a).push(y));
    }
}

/// Reading the canonical text of a position gives that position back; so
/// formatting, reading and formatting again yields the first text.
pub proof fn lemma_time_text_round_trip(t: Time)
    ensures
        is_time_text(time_text(t.0 as nat)),
        time_text_seconds(time_text(t.0 as nat)) == t.0,
        parse_time(time_text(t.0 as nat)) == Ok::<Time, FormatError>(t),
        parse_time(time_text(t.0 as nat)) matches Ok(u) && time_text(u.0 as nat) == time_text(t.0 as nat),
{
    let s = t.0 as nat;
    if s >= 3600 {
        let h = two_digits(s / 3600);
        let m = two_digits(s % 3600 / 60);
        let x = two_digits(s % 60);
        lemma_two_digits(s / 3600);
        lemma_two_digits(s % 3600 / 60);
        lemma_two_digits(s % 60);
        lemma_fields_of_digits(h);
        lemma_fields_after_colon(h, m);
        lemma_fields_after_colon(h + seq![':'] + m, x);
        let fs = seq![h, m, x];
        assert(colon_fields(time_text(s)) =~= fs);
        assert(fs.drop_last() =~= seq![h, m]);
        assert(fs.drop_last().drop_last() =~= seq![h]);
        assert(fs.drop_last().drop_last().drop_last() =~= Seq::<Seq<char>>::empty());
        assert(seq![h].drop_last() =~= Seq::<Seq<char>>::empty());
        assert(seq![h].last() == h);
        assert(fields_seconds(Seq::<Seq<char>>::empty()) == 0);
        assert(digits_value(h) == s / 3600);
        assert(fields_seconds(seq![h]) == s / 3600);
        assert(fields_seconds(seq![h, m]) == (s / 3600) * 60 + s % 3600 / 60);
        assert(fields_seconds(fs) == ((s / 3600) * 60 + s % 3600 / 60) * 60 + s % 60);
        assert(((s / 3600) * 60 + s % 3600 / 60) * 60 + s % 60 == s) by (nonlinear_arith);
        assert(forall|k: int| 0 <= k < fs.len() ==> #[trigger] fs[k].len() > 0 && all_digits(fs[k]));
    } else {
        let m = two_digits(s / 60);
        let x = two_digits(s % 60);
        lemma_two_digits(s / 60);
        lemma_two_digits(s % 60);
        lemma_fields_of_digits(m);
        lemma_fields_after_colon(m, x);
        let fs = seq![m, x];
        assert(colon_fields(time_text(s)) =~= fs);
        assert(fs.drop_last() =~= seq![m]);
        assert(fs.drop_last().drop_last() =~= Seq::<Seq<char>>::empty());
        assert(seq![m].drop_last() =~= Seq::<Seq<char>>::empty());
        assert(seq![m].last() == m);
        assert(fields_seconds(Seq::<Seq<char>>::empty()) == 0);
        assert(digits_value(m) == s / 60);
        assert(fields_seconds(seq![m]) == s / 60);
        assert(fields_seconds(fs) == (s / 60) * 60 + s % 60);
        assert(forall|k: int| 0 <= k < fs.len() ==> #[trigger] fs[k].len() > 0 && all_digits(fs[k]));
    }
}

/// A position is earlier than the position one second later.
pub proof fn lemma_next_second_is_later(t: Time, u: Time)
    requires
        u.0 == t.0 + 1,
    ensures
        t.partial_cmp_spec(&u) == Some(core::cmp::Ordering::Less),
        u.partial_cmp_spec(&t) == Some(core::cmp::Ordering::Greater),
{
}

} // verus!
