//! Measurements as exact ratios.
use vstd::prelude::*;

use crate::text::number::{
    dec, nearest, nearest_is_near, push_dec, push_tenths, round_ratio, tenths,
};

verus! {

/// A part of a whole: `part / whole`, or `100 * part / whole` percent.
#[derive(Debug, Clone, Copy, PartialEq, Eq, Structural)]
pub struct Share {
    pub part: u64,
    pub whole: u64,
}

impl DeepView for Share {
    type V = Share;

    open spec fn deep_view(&self) -> Share {
        *self
    }
}

impl Share {
    /// There is a whole to have a part of.
    pub open spec fn wf(self) -> bool {
        self.whole > 0
    }

    /// The share is less than this many percent.
    pub open spec fn is_below(self, percent: int) -> bool {
        100 * self.part < percent * self.whole
    }

    /// Whether the share is less than this many percent.
    pub fn below(self, percent: u64) -> (r: bool)
        ensures
            r == self.is_below(percent as int),
    {
        assert(percent * self.whole <= u64::MAX * u64::MAX) by (nonlinear_arith)
            requires
                percent <= u64::MAX,
                self.whole <= u64::MAX,
        ;
        100u128 * (self.part as u128) < (percent as u128) * (self.whole as u128)
    }

    /// The percentage, rounded to a whole number.
    pub open spec fn percent_text(self) -> Seq<char> {
        dec(nearest((100 * self.part) as nat, self.whole as nat))
    }

    /// The percentage, rounded to one decimal.
    pub open spec fn percent_tenths_text(self) -> Seq<char> {
        tenths(nearest((1000 * self.part) as nat, self.whole as nat))
    }

    /// The percentage in millionths of a percent, rounded to a whole number.
    pub open spec fn micro_percent(self) -> nat {
        nearest((100_000_000 * self.part) as nat, self.whole as nat)
    }

    /// Append the percentage, rounded to a whole number.
    pub fn push_percent(self, s: &mut String)
        requires
            self.wf(),
        ensures
            final(s)@ == old(s)@ + self.percent_text(),
    {
        push_dec(s, round_ratio(100u128 * self.part as u128, self.whole as u128));
    }

    /// Append the percentage, rounded to one decimal.
    pub fn push_percent_tenths(self, s: &mut String)
        requires
            self.wf(),
        ensures
            final(s)@ == old(s)@ + self.percent_tenths_text(),
    {
        push_tenths(s, round_ratio(1000u128 * self.part as u128, self.whole as u128));
    }

    /// The percentage in millionths of a percent, rounded to a whole number.
    pub fn to_micro_percent(self) -> (r: u128)
        requires
            self.wf(),
        ensures
            r == self.micro_percent(),
    {
        round_ratio(100_000_000u128 * self.part as u128, self.whole as u128)
    }
}

/// A clock frequency.
#[derive(Debug, Clone, Copy, PartialEq, Eq, Structural)]
pub struct Frequency {
    pub hertz: u64,
}

impl DeepView for Frequency {
    type V = Frequency;

    open spec fn deep_view(&self) -> Frequency {
        *self
    }
}

/// An electrical power.
#[derive(Debug, Clone, Copy, PartialEq, Eq, Structural)]
pub struct Power {
    pub microwatts: u64,
}

impl DeepView for Power {
    type V = Power;

    open spec fn deep_view(&self) -> Power {
        *self
    }
}

/// A temperature or a temperature difference, in eighths of a degree Celsius.
#[derive(Debug, Clone, Copy, PartialEq, Eq, Structural)]
pub struct Celsius {
    pub eighths: i32,
}

impl DeepView for Celsius {
    type V = Celsius;

    open spec fn deep_view(&self) -> Celsius {
        *self
    }
}

impl Celsius {
    /// The whole number of degrees nearest to this; of two that are equally near, the one
    /// further from zero.
    pub open spec fn rounded(self) -> int {
        if self.eighths >= 0 {
            (self.eighths + 4) / 8
        } else {
            -((4 - self.eighths) / 8)
        }
    }

    /// The whole number of degrees nearest to this; of two that are equally near, the one
    /// further from zero.
    pub fn round(self) -> (r: i64)
        ensures
            r == self.rounded(),
    {
        let e: i64 = self.eighths as i64;
        if e >= 0 {
            (e + 4) / 8
        } else {
            -((4 - e) / 8)
        }
    }
}

/// A quantity in a 64-bit field: as large as fits.
pub open spec fn capped(n: nat) -> u64 {
    if n <= u64::MAX {
        n as u64
    } else {
        u64::MAX
    }
}

/// A quantity in a 64-bit field: as large as fits.
pub fn cap(n: u128) -> (r: u64)
    ensures
        r == capped(n as nat),
{
    if n <= u64::MAX as u128 {
        n as u64
    } else {
        u64::MAX
    }
}

/// A share is below a percentage exactly where a hundred times the part is less than that many
/// times the whole; so a share that is below one percentage is below every higher one.
pub proof fn shares_are_compared_as_ratios(s: Share, p: int, q: int)
    ensures
        s.is_below(p) <==> s.part * 100 < s.whole * p,
        s.is_below(p) && p <= q ==> s.is_below(q),
{
    assert(p * s.whole == s.whole * p) by (nonlinear_arith);
    assert(p <= q ==> p * s.whole <= q * s.whole) by (nonlinear_arith)
        requires
            s.whole >= 0,
    ;
}

/// The texts and the number of a share are its percentage, each to the nearest of its unit.
pub proof fn percentages_are_to_the_nearest(s: Share)
    requires
        s.whole > 0,
    ensures
        exists|p: nat|
            s.percent_text() == #[trigger] dec(p) && -s.whole <= 2 * (p * s.whole - 100 * s.part)
                <= s.whole,
        exists|t: nat|
            s.percent_tenths_text() == #[trigger] tenths(t) && -s.whole <= 2 * (t * s.whole - 1000
                * s.part) <= s.whole,
        -s.whole <= 2 * (s.micro_percent() * s.whole - 100_000_000 * s.part) <= s.whole,
{
    nearest_is_near((100 * s.part) as nat, s.whole as nat);
    nearest_is_near((1000 * s.part) as nat, s.whole as nat);
    nearest_is_near((100_000_000 * s.part) as nat, s.whole as nat);
    assert(s.percent_text() == dec(nearest((100 * s.part) as nat, s.whole as nat)));
    assert(s.percent_tenths_text() == tenths(nearest((1000 * s.part) as nat, s.whole as nat)));
}

/// Degrees are rounded to the nearest, and a temperature and its opposite alike.
pub proof fn degrees_are_to_the_nearest(t: Celsius)
    requires
        t.eighths > i32::MIN,
    ensures
        -4 <= 8 * t.rounded() - t.eighths <= 4,
        (Celsius { eighths: (-t.eighths) as i32 }).rounded() == -t.rounded(),
        t.eighths > 0 ==> -4 < 8 * t.rounded() - t.eighths,
{
}

/// A quantity that fits its field is kept, and a larger one becomes the largest that fits.
pub proof fn quantities_are_kept_as_far_as_they_fit(n: nat)
    ensures
        capped(n) <= n,
        n < 0x1_0000_0000_0000_0000 ==> capped(n) == n,
        n >= 0x1_0000_0000_0000_0000 ==> capped(n) == 0xFFFF_FFFF_FFFF_FFFF,
{
}

} // verus!
