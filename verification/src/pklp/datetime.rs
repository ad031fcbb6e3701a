//! A date and time of day in 32 bits.
//!
//! From the low bits up: six bits of seconds, six of minutes, five of hours,
//! five of the day less one, four of the month less one, six of the year
//! less 2000.

use vstd::prelude::*;

verus! {

/// The year that is stored as zero.
pub const YEAR_BEGIN: u32 = 2000;

/// A date from the year 2000 on and a time of day, to the second.
#[derive(Debug, Clone, Copy, PartialEq, Eq, Structural)]
pub struct DateTime(pub u32);

/// Whether each field fits the bits it is given.
pub open spec fn date_fits(year: int, month: int, day: int, hour: int, min: int, sec: int) -> bool {
    &&& 2000 <= year < 2064
    &&& 1 <= month <= 16
    &&& 1 <= day <= 32
    &&& 0 <= hour < 32
    &&& 0 <= min < 64
    &&& 0 <= sec < 64
}

proof fn lemma_date_bits(y: u32, mo: u32, d: u32, h: u32, mi: u32, s: u32)
    by (bit_vector)
    requires
        y < 64,
        mo < 16,
        d < 32,
        h < 32,
        mi < 64,
        s < 64,
    ensures
        ({
            let w = s | (mi << 6) | (h << 12) | (d << 17) | (mo << 22) | (y << 26);
            &&& (w & 0xfc00_0000) >> 26 == y
            &&& (w & 0x03c0_0000) >> 22 == mo
            &&& (w & 0x003e_0000) >> 17 == d
            &&& (w & 0x0001_f000) >> 12 == h
            &&& (w & 0x0000_0fc0) >> 6 == mi
            &&& w & 0x0000_003f == s
        }),
{
}

proof fn lemma_date_split(w: u32)
    by (bit_vector)
    ensures
        (w & 0xfc00_0000) >> 26 < 64,
        (w & 0x03c0_0000) >> 22 < 16,
        (w & 0x003e_0000) >> 17 < 32,
        (w & 0x0001_f000) >> 12 < 32,
        (w & 0x0000_0fc0) >> 6 < 64,
        w & 0x0000_003f < 64,
{
}

impl DateTime {
    pub open spec fn spec_new(year: int, month: int, day: int, hour: int, min: int, sec: int) -> DateTime {
        DateTime(
            (sec as u32) | ((min as u32) << 6) | ((hour as u32) << 12) | (((day - 1) as u32) << 17)
                | (((month - 1) as u32) << 22) | (((year - 2000) as u32) << 26),
        )
    }

    pub open spec fn spec_year(self) -> int {
        2000 + ((self.0 & 0xfc00_0000) >> 26)
    }

    pub open spec fn spec_month(self) -> int {
        1 + ((self.0 & 0x03c0_0000) >> 22)
    }

    pub open spec fn spec_day(self) -> int {
        1 + ((self.0 & 0x003e_0000) >> 17)
    }

    pub open spec fn spec_hour(self) -> int {
        ((self.0 & 0x0001_f000) >> 12) as int
    }

    pub open spec fn spec_min(self) -> int {
        ((self.0 & 0x0000_0fc0) >> 6) as int
    }

    pub open spec fn spec_sec(self) -> int {
        (self.0 & 0x0000_003f) as int
    }

    /// Every field of a date that fits reads back as it was written.
    pub proof fn lemma_fields(year: int, month: int, day: int, hour: int, min: int, sec: int)
        requires
            date_fits(year, month, day, hour, min, sec),
        ensures
            ({
                let d = DateTime::spec_new(year, month, day, hour, min, sec);
                &&& d.spec_year() == year
                &&& d.spec_month() == month
                &&& d.spec_day() == day
                &&& d.spec_hour() == hour
                &&& d.spec_min() == min
                &&& d.spec_sec() == sec
            }),
    {
        lemma_date_bits(
            (year - 2000) as u32,
            (month - 1) as u32,
            (day - 1) as u32,
            hour as u32,
            min as u32,
            sec as u32,
        );
    }

    pub fn new(year: u32, month: u32, day: u32, hour: u32, min: u32, sec: u32) -> (d: DateTime)
        requires
            date_fits(year as int, month as int, day as int, hour as int, min as int, sec as int),
        ensures
            d == DateTime::spec_new(
                year as int,
                month as int,
                day as int,
                hour as int,
                min as int,
                sec as int,
            ),
    {
        DateTime(
            sec | (min << 6) | (hour << 12) | ((day - 1) << 17) | ((month - 1) << 22) | ((year
                - YEAR_BEGIN) << 26),
        )
    }

    pub fn year(self) -> (v: u32)
        ensures
            v == self.spec_year(),
    {
        proof {
            lemma_date_split(self.0);
        }
        YEAR_BEGIN + ((self.0 & 0xfc00_0000) >> 26)
    }

    pub fn month(self) -> (v: u32)
        ensures
            v == self.spec_month(),
    {
        proof {
            lemma_date_split(self.0);
        }
        1 + ((self.0 & 0x03c0_0000) >> 22)
    }

    pub fn day(self) -> (v: u32)
        ensures
            v == self.spec_day(),
    {
        proof {
            lemma_date_split(self.0);
        }
        1 + ((self.0 & 0x003e_0000) >> 17)
    }

    pub fn hour(self) -> (v: u32)
        ensures
            v == self.spec_hour(),
    {
        (self.0 & 0x0001_f000) >> 12
    }

    pub fn min(self) -> (v: u32)
        ensures
            v == self.spec_min(),
    {
        (self.0 & 0x0000_0fc0) >> 6
    }

    pub fn sec(self) -> (v: u32)
        ensures
            v == self.spec_sec(),
    {
        self.0 & 0x0000_003f
    }
}

impl Default for DateTime {
    fn default() -> (d: Self)
        ensures
            d == DateTime(0),
    {
        DateTime(0)
    }
}

} // verus!
