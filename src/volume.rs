use vstd::prelude::*;
use vstd::string::*;
use crate::text::{all_digits, digits_value, full_match, read_digits, FormatError, SATURATED};

verus! {

/// The top of the player's own volume scale.
pub const RAW_SCALE: u32 = 512;

/// The top of the percent scale in which schedules give volumes.
pub const PERCENT_SCALE: u32 = 200;

/// A volume, in percent of the player's normal level (0 to 200).
#[derive(Debug, Clone, Copy, PartialEq, Eq, Structural)]
pub struct Volume(pub u32);

impl PartialOrd for Volume {
    fn partial_cmp(&self, other: &Volume) -> (r: Option<core::cmp::Ordering>) {
        if self.0 < other.0 {
            Some(core::cmp::Ordering::Less)
        } else if self.0 > other.0 {
            Some(core::cmp::Ordering::Greater)
        } else {
            Some(core::cmp::Ordering::Equal)
        }
    }
}

impl vstd::std_specs::cmp::PartialOrdSpecImpl for Volume {
    open spec fn obeys_partial_cmp_spec() -> bool {
        true
    }

    open spec fn partial_cmp_spec(&self, other: &Volume) -> Option<core::cmp::Ordering> {
        if self.0 < other.0 {
            Some(core::cmp::Ordering::Less)
        } else if self.0 > other.0 {
            Some(core::cmp::Ordering::Greater)
        } else {
            Some(core::cmp::Ordering::Equal)
        }
    }
}

/// `value * to / from`, rounded down and capped at the largest 32-bit value.
pub open spec fn scaled(value: nat, from: nat, to: nat) -> nat {
    let v = value * to / from;
    if v <= u32::MAX {
        v
    } else {
        u32::MAX as nat
    }
}

/// A number of ASCII digits followed by a percent sign, the language of the
/// pattern `^[0-9]+%$`.
pub open spec fn is_percent_text(s: Seq<char>) -> bool {
    &&& s.len() >= 2
    &&& s.last() == '%'
    &&& all_digits(s.drop_last())
}

/// What reading `s` as a volume in percent gives.
pub open spec fn parse_percent(s: Seq<char>) -> Result<Volume, FormatError> {
    if !is_percent_text(s) {
        Err(FormatError::Shape)
    } else if digits_value(s.drop_last()) > u32::MAX {
        Err(FormatError::TooLarge)
    } else {
        Ok(Volume(digits_value(s.drop_last()) as u32))
    }
}

/// The pattern that a volume text in percent matches.
pub const PERCENT_PATTERN: &'static str = "^[0-9]+%$";

impl Volume {
    pub fn new(amount: u32) -> (r: Volume)
        ensures
            r.0 == amount,
    {
        Volume(amount)
    }

    /// This volume moved from a scale topped by `from` to one topped by `to`.
    pub fn scale(&self, from: u32, to: u32) -> (r: Volume)
        requires
            from > 0,
        ensures
            r.0 == scaled(self.0 as nat, from as nat, to as nat),
    {
        let a = self.0 as u64;
        let b = to as u64;
        assert(a * b <= 0xffff_ffff * 0xffff_ffff) by (nonlinear_arith)
            requires
                a <= 0xffff_ffff,
                b <= 0xffff_ffff,
        ;
        let product: u64 = a * b;
        let v: u64 = product / from as u64;
        if v <= u32::MAX as u64 {
            Volume(v as u32)
        } else {
            Volume(u32::MAX)
        }
    }

    /// A volume reported by the player on its own scale (0 to 512), in percent;
    /// like a cast to 32 bits, only the low 32 bits of the number are kept.
    pub fn from_numeric(raw: u64) -> (r: Volume)
        ensures
            r.0 == scaled((raw % 0x1_0000_0000) as nat, RAW_SCALE as nat, PERCENT_SCALE as nat),
    {
        Volume((raw % 0x1_0000_0000) as u32).scale(RAW_SCALE, PERCENT_SCALE)
    }

    /// Reads a volume written in percent (`50%`).
    pub fn from_text(text: &str) -> (r: Result<Volume, FormatError>)
        ensures
            r == parse_percent(text@),
    {
        if !full_match(PERCENT_PATTERN, text) {
            return Err(FormatError::Shape);
        }
        let n = text.unicode_len();
        assert(text@.take(n - 1) =~= text@.drop_last());
        let value = read_digits(text, n - 1);
        if value == SATURATED {
            Err(FormatError::TooLarge)
        } else {
            Ok(Volume(value as u32))
        }
    }
}

/// How far apart two volumes are.
pub open spec fn volume_distance(volume1: Volume, volume2: Volume) -> nat {
    if volume1.0 >= volume2.0 {
        (volume1.0 - volume2.0) as nat
    } else {
        (volume2.0 - volume1.0) as nat
    }
}

/// How far apart two volumes are.
pub fn abs_difference(volume1: Volume, volume2: Volume) -> (r: u32)
    ensures
        r == volume_distance(volume1, volume2),
{
    if volume1.0 >= volume2.0 {
        volume1.0 - volume2.0
    } else {
        volume2.0 - volume1.0
    }
}

/// A volume on the player's scale, moved to percent and back, comes back at
/// most three steps lower and never higher: each move only truncates.
pub proof fn lemma_raw_round_trip(raw: u32)
    ensures
        scaled(scaled(raw as nat, RAW_SCALE as nat, PERCENT_SCALE as nat), PERCENT_SCALE as nat, RAW_SCALE as nat) <= raw,
        raw <= scaled(scaled(raw as nat, RAW_SCALE as nat, PERCENT_SCALE as nat), PERCENT_SCALE as nat, RAW_SCALE as nat) + 3,
{
    let r = raw as int;
    let p = r * 200 / 512;
    assert(0 <= p <= r) by (nonlinear_arith)
        requires
            p == r * 200 / 512,
            r >= 0,
    ;
    let b = p * 512 / 200;
    assert(b <= r && r <= b + 3) by (nonlinear_arith)
        requires
            p == r * 200 / 512,
            b == p * 512 / 200,
            r >= 0,
    ;
}

/// A volume in percent, moved to the player's scale and back, comes back at
/// most one percent lower and never higher.
pub proof fn lemma_percent_round_trip(percent: u32)
    requires
        percent * (RAW_SCALE as int) / (PERCENT_SCALE as int) <= u32::MAX,
    ensures
        scaled(scaled(percent as nat, PERCENT_SCALE as nat, RAW_SCALE as nat), RAW_SCALE as nat, PERCENT_SCALE as nat) <= percent,
        percent <= scaled(scaled(percent as nat, PERCENT_SCALE as nat, RAW_SCALE as nat), RAW_SCALE as nat, PERCENT_SCALE as nat) + 1,
{
    let q = percent as int;
    let r = q * 512 / 200;
    let b = r * 200 / 512;
    assert(b <= q && q <= b + 1 && r >= 0) by (nonlinear_arith)
        requires
            r == q * 512 / 200,
            b == r * 200 / 512,
            q >= 0,
    ;
}

} // verus!
