//! Amounts of money and chips, kept exact.

use vstd::prelude::*;

verus! {

/// An amount in hundredths of the currency unit: `Number(123)` is 1.23.
///
/// An integer count of hundredths compares without rounding, and holds
/// exactly every amount of at most two decimals up to 42,949,672.95, the
/// most that 32 bits count. It holds no other amount:
///
/// - an amount above 42,949,672.95 cannot be kept. Reading one fails, and
///   the hand that prints it, be it a stack, a bet or a pot, is not read;
/// - digits after the second decimal are read past and dropped, not
///   rounded: `1.239` is kept as `Number(123)`.
#[derive(Debug, Clone, Copy, PartialEq, Eq, Structural)]
pub struct Number(pub u32);

impl Number {
    /// The amount nothing.
    pub fn zero() -> (n: Number)
        ensures
            n == Number(0),
    {
        Number(0)
    }

    /// The amount as a count of hundredths.
    pub open spec fn view(&self) -> int {
        self.0 as int
    }

    /// `units` whole units and `hundredths` hundredths, where that fits 32
    /// bits.
    pub open spec fn spec_from_parts(units: int, hundredths: int) -> Option<Number> {
        if 0 <= units && 0 <= hundredths < 100 && units * 100 + hundredths <= u32::MAX {
            Some(Number((units * 100 + hundredths) as u32))
        } else {
            None
        }
    }

    pub fn from_hundredths(hundredths: u32) -> (n: Number)
        ensures
            n@ == hundredths,
    {
        Number(hundredths)
    }

    pub fn from_parts(units: u64, hundredths: u8) -> (n: Option<Number>)
        ensures
            n == Number::spec_from_parts(units as int, hundredths as int),
    {
        if hundredths >= 100 || units > 42_949_672 {
            return None;
        }
        let total: u64 = units * 100 + hundredths as u64;
        if total > 0xffff_ffff {
            None
        } else {
            Some(Number(total as u32))
        }
    }

    pub fn hundredths(self) -> (h: u32)
        ensures
            h == self@,
    {
        self.0
    }

    /// The whole units of the amount.
    pub fn units(self) -> (u: u32)
        ensures
            u == self@ / 100,
    {
        self.0 / 100
    }

    /// The hundredths beyond the whole units.
    pub fn fraction(self) -> (f: u8)
        ensures
            f == self@ % 100,
    {
        (self.0 % 100) as u8
    }

    /// `self - other`, where `other` is not the larger.
    pub fn checked_sub(self, other: Number) -> (d: Option<Number>)
        ensures
            d == (if other@ <= self@ {
                Some(Number((self@ - other@) as u32))
            } else {
                None
            }),
    {
        if other.0 <= self.0 {
            Some(Number(self.0 - other.0))
        } else {
            None
        }
    }
}

impl Default for Number {
    fn default() -> (n: Self)
        ensures
            n == Number(0),
    {
        Number(0)
    }
}

} // verus!
