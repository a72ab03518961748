//! Calendar times of a file header.

use crate::blf::bytes::{
    le_u16, lemma_field_u16, lemma_le_u16_at, put_u16, read_u16, starts_with, u16_at,
};
use vstd::prelude::*;

verus! {

/// A point in time, counted from 1970-01-01 00:00:00 UTC. The seconds of a point before
/// that are negative.
#[derive(Debug, Clone, Copy, PartialEq, Eq, Structural)]
pub struct UnixTime {
    pub secs: i64,
    pub nanos: u32,
}

/// A calendar time, as it stands in a file header.
#[derive(Debug, Clone, Copy, Default, PartialEq, Eq, Structural)]
pub struct Time {
    pub year: u16,
    pub month: u16,
    pub day_of_week: u16,
    pub day: u16,
    pub hour: u16,
    pub minute: u16,
    pub second: u16,
    pub milliseconds: u16,
}

/// Whether the Gregorian calendar has a leap day in the year.
pub open spec fn leap(y: int) -> bool {
    (y % 4 == 0 && y % 100 != 0) || y % 400 == 0
}

/// Number of days of a month.
pub open spec fn month_days(y: int, m: int) -> int {
    if m == 1 || m == 3 || m == 5 || m == 7 || m == 8 || m == 10 || m == 12 {
        31
    } else if m == 4 || m == 6 || m == 9 || m == 11 {
        30
    } else if m == 2 {
        if leap(y) {
            29
        } else {
            28
        }
    } else {
        0
    }
}

/// Whether year, month and day are a date.
pub open spec fn is_date(y: int, m: int, d: int) -> bool {
    1 <= m <= 12 && 1 <= d <= month_days(y, m)
}

/// The year that starts with March and holds the month.
pub open spec fn march_year(y: int, m: int) -> int {
    if m <= 2 {
        y - 1
    } else {
        y
    }
}

/// Number of months since March.
pub open spec fn march_month(m: int) -> int {
    if m <= 2 {
        m + 9
    } else {
        m - 3
    }
}

/// Number of days from 0000-03-01 to the first of March of the year.
pub open spec fn days_before_march(y: int) -> int {
    365 * y + y / 4 - y / 100 + y / 400
}

/// Number of days from the first of March to the first of a month.
pub open spec fn days_since_march(mp: int) -> int {
    (153 * mp + 2) / 5
}

/// Number of days from 1970-01-01 to a date of the Gregorian calendar.
pub open spec fn day_number(y: int, m: int, d: int) -> int {
    days_before_march(march_year(y, m)) + days_since_march(march_month(m)) + d - 1 - 719468
}

/// Day zero is the first of January 1970.
pub proof fn law_day_zero()
    ensures
        day_number(1970, 1, 1) == 0,
{
}

/// The next day of a month has the next number.
pub proof fn law_next_day(y: int, m: int, d: int)
    requires
        is_date(y, m, d),
    ensures
        day_number(y, m, d + 1) == day_number(y, m, d) + 1,
{
}

/// The first of a month follows the last day of the month before it.
pub proof fn law_next_month(y: int, m: int)
    requires
        1 <= m < 12,
    ensures
        day_number(y, m + 1, 1) == day_number(y, m, month_days(y, m)) + 1,
{
    if m == 2 {
        let (q4, q100, q400) = ((y - 1) / 4, (y - 1) / 100, (y - 1) / 400);
        assert(y / 4 == q4 + (if y % 4 == 0 { 1int } else { 0 }));
        assert(y / 100 == q100 + (if y % 100 == 0 { 1int } else { 0 }));
        assert(y / 400 == q400 + (if y % 400 == 0 { 1int } else { 0 }));
    }
}

/// New Year follows the last day of December.
pub proof fn law_next_year(y: int)
    ensures
        day_number(y + 1, 1, 1) == day_number(y, 12, 31) + 1,
{
}

/// Later dates have greater numbers, so that a number stands for one date only.
pub proof fn law_day_number_unique(y1: int, m1: int, d1: int, y2: int, m2: int, d2: int)
    requires
        is_date(y1, m1, d1),
        is_date(y2, m2, d2),
        day_number(y1, m1, d1) == day_number(y2, m2, d2),
    ensures
        y1 == y2,
        m1 == m2,
        d1 == d2,
{
    let (a1, a2) = (march_year(y1, m1), march_year(y2, m2));
    if a1 < a2 {
        lemma_year_ends(y1, m1, d1);
        lemma_days_before_march_grows(a1 + 1, a2);
        lemma_year_starts(m2, d2);
    } else if a2 < a1 {
        lemma_year_ends(y2, m2, d2);
        lemma_days_before_march_grows(a2 + 1, a1);
        lemma_year_starts(m1, d1);
    } else {
        let (p1, p2) = (march_month(m1), march_month(m2));
        if p1 < p2 {
            lemma_month_ends(y1, m1, d1);
            lemma_days_since_march_grows(p1 + 1, p2);
        } else if p2 < p1 {
            lemma_month_ends(y2, m2, d2);
            lemma_days_since_march_grows(p2 + 1, p1);
        }
    }
}

proof fn lemma_days_since_march_grows(a: int, b: int)
    requires
        0 <= a <= b <= 11,
    ensures
        days_since_march(a) <= days_since_march(b),
{
}

/// A date lies before the first of the next month; the last month of a March year is
/// February.
proof fn lemma_month_ends(y: int, m: int, d: int)
    requires
        is_date(y, m, d),
    ensures
        m != 2 ==> days_since_march(march_month(m)) + d - 1 < days_since_march(
            march_month(m) + 1,
        ),
        m == 2 ==> march_month(m) == 11,
{
}

proof fn lemma_year_starts(m: int, d: int)
    requires
        1 <= m <= 12,
        1 <= d,
    ensures
        days_since_march(march_month(m)) + d - 1 >= 0,
{
}

/// A date lies before the first of March that ends its March year.
proof fn lemma_year_ends(y: int, m: int, d: int)
    requires
        is_date(y, m, d),
    ensures
        ({
            let a = march_year(y, m);
            days_before_march(a) + days_since_march(march_month(m)) + d - 1 < days_before_march(
                a + 1,
            )
        }),
{
    let a = march_year(y, m);
    let (q4, q100, q400) = (a / 4, a / 100, a / 400);
    assert((a + 1) / 4 == q4 + (if (a + 1) % 4 == 0 { 1int } else { 0 }));
    assert((a + 1) / 100 == q100 + (if (a + 1) % 100 == 0 { 1int } else { 0 }));
    assert((a + 1) / 400 == q400 + (if (a + 1) % 400 == 0 { 1int } else { 0 }));
}

proof fn lemma_days_before_march_grows(a: int, b: int)
    requires
        a <= b,
    ensures
        days_before_march(a) <= days_before_march(b),
    decreases b - a,
{
    if a < b {
        lemma_days_before_march_grows(a, b - 1);
        let c = b - 1;
        let (q4, q100, q400) = (c / 4, c / 100, c / 400);
        assert(b / 4 == q4 + (if b % 4 == 0 { 1int } else { 0 }));
        assert(b / 100 == q100 + (if b % 100 == 0 { 1int } else { 0 }));
        assert(b / 400 == q400 + (if b % 400 == 0 { 1int } else { 0 }));
    }
}

/// The days before a March year that is the given one of its four-year cycle, century and
/// era.
proof fn lemma_year_part(era: int, century: int, cycle: int, year_of_cycle: int)
    requires
        0 <= century <= 3,
        0 <= cycle <= 24,
        0 <= year_of_cycle <= 3,
    ensures
        days_before_march(400 * era + 100 * century + 4 * cycle + year_of_cycle) == 146_097 * era
            + 36_524 * century + 1461 * cycle + 365 * year_of_cycle,
{
    let y = 400 * era + 100 * century + 4 * cycle + year_of_cycle;
    assert(y / 4 == 100 * era + 25 * century + cycle);
    assert(y / 100 == 4 * era + century);
    assert(y / 400 == era);
}

/// The month and the day of the month of a day of a March year.
proof fn lemma_month_part(doy: int, year: int)
    requires
        0 <= doy <= 365,
        doy == 365 ==> leap(year),
    ensures
        ({
            let mp = (5 * doy + 2) / 153;
            let d = doy - days_since_march(mp) + 1;
            let m = if mp < 10 {
                mp + 3
            } else {
                mp - 9
            };
            0 <= mp <= 11 && march_month(m) == mp && is_date(year, m, d)
        }),
{
    let mp = (5 * doy + 2) / 153;
    assert(0 <= mp <= 11);
    assert(mp == 0 || mp == 1 || mp == 2 || mp == 3 || mp == 4 || mp == 5 || mp == 6 || mp == 7
        || mp == 8 || mp == 9 || mp == 10 || mp == 11);
}

/// The date with a number of days since 1970-01-01.
fn civil_from_days(days: i64) -> (r: (i64, u32, u32))
    requires
        -0x7fff_ffff_0000_0000 <= days <= 0x7fff_ffff_0000_0000,
    ensures
        is_date(r.0 as int, r.1 as int, r.2 as int),
        day_number(r.0 as int, r.1 as int, r.2 as int) == days,
{
    let (era, doe) = era_of(days + 719_468);
    let (yoe, doy) = year_of_era(doe);
    let y: i64 = yoe + era * 400;
    let mp: i64 = (5 * doy + 2) / 153;
    let d: i64 = doy - (153 * mp + 2) / 5 + 1;
    let m: i64 = if mp < 10 {
        mp + 3
    } else {
        mp - 9
    };
    let year: i64 = if m <= 2 {
        y + 1
    } else {
        y
    };
    proof {
        lemma_era(era as int, yoe as int);
        assert(doy == 365 ==> mp == 11);
        assert(doy == 365 ==> year == 400 * era + yoe + 1);
        lemma_month_part(doy as int, year as int);
        assert(march_year(year as int, m as int) == y);
    }
    (year, m as u32, d as u32)
}

/// The days before a March year, counted by eras of 400 years.
#[verifier::spinoff_prover]
#[verifier::rlimit(60)]
proof fn lemma_era(era: int, yoe: int)
    requires
        0 <= yoe < 400,
    ensures
        days_before_march(400 * era + yoe) == 146_097 * era + days_before_march(yoe),
        leap(400 * era + yoe + 1) == leap(yoe + 1),
{
    let y = 400 * era + yoe;
    assert(y / 4 == 100 * era + yoe / 4);
    assert(y / 100 == 4 * era + yoe / 100);
    assert(y / 400 == era);
    assert((y + 1) % 4 == (yoe + 1) % 4);
    assert((y + 1) % 100 == (yoe + 1) % 100);
    assert((y + 1) % 400 == (yoe + 1) % 400);
}

/// The era of 400 years that holds a day, and the day within it.
fn era_of(z: i64) -> (r: (i64, i64))
    requires
        -0x7fff_ffff_0000_0000 <= z,
    ensures
        z == r.0 * 146_097 + r.1,
        0 <= r.1 < 146_097,
        -0x4000_0000_0000 <= r.0 <= 0x4000_0000_0000,
{
    let era: i64 = if z >= 0 {
        z / 146_097
    } else {
        -((146_096 - z) / 146_097)
    };
    (era, z - era * 146_097)
}

/// The March year of an era that holds a day of the era, and the day within the year.
fn year_of_era(doe: i64) -> (r: (i64, i64))
    requires
        0 <= doe < 146_097,
    ensures
        0 <= r.0 < 400,
        0 <= r.1 <= 365,
        days_before_march(r.0 as int) + r.1 == doe,
        r.1 == 365 ==> leap(r.0 + 1),
{
    let century: i64 = if doe >= 109_572 {
        3
    } else {
        doe / 36_524
    };
    let day_of_century: i64 = doe - century * 36_524;
    let cycle: i64 = day_of_century / 1461;
    let day_of_cycle: i64 = day_of_century - cycle * 1461;
    let year_of_cycle: i64 = if day_of_cycle >= 1095 {
        3
    } else {
        day_of_cycle / 365
    };
    let doy: i64 = day_of_cycle - year_of_cycle * 365;
    proof {
        assert(0 <= cycle <= 24);
        lemma_year_part(0, century as int, cycle as int, year_of_cycle as int);
        if doy == 365 {
            assert(cycle < 24 || century == 3);
        }
    }
    (century * 100 + cycle * 4 + year_of_cycle, doy)
}

/// Number of days from 1970-01-01 to a date.
fn days_from_civil(y: i32, m: u32, d: u32) -> (r: i64)
    requires
        1 <= m <= 12,
        1 <= d <= 31,
    ensures
        r == day_number(y as int, m as int, d as int),
{
    let y: i64 = if m <= 2 {
        y as i64 - 1
    } else {
        y as i64
    };
    let era: i64 = if y >= 0 {
        y / 400
    } else {
        -((399 - y) / 400)
    };
    let yoe: i64 = y - era * 400;
    assert(0 <= yoe < 400);
    let mp: i64 = (m as i64 + 9) % 12;
    let doy: i64 = (153 * mp + 2) / 5 + d as i64 - 1;
    let doe: i64 = yoe * 365 + yoe / 4 - yoe / 100 + doy;
    proof {
        assert(y / 4 == 100 * era + yoe / 4);
        assert(y / 100 == 4 * era + yoe / 100);
        assert(y / 400 == era);
    }
    era * 146_097 + doe - 719_468
}

fn is_leap_year(y: i32) -> (r: bool)
    requires
        y >= 0,
    ensures
        r == leap(y as int),
{
    (y % 4 == 0 && y % 100 != 0) || y % 400 == 0
}

fn days_in_month(y: i32, m: u32) -> (r: u32)
    requires
        y >= 0,
    ensures
        r == month_days(y as int, m as int),
{
    match m {
        1 | 3 | 5 | 7 | 8 | 10 | 12 => 31,
        4 | 6 | 9 | 11 => 30,
        2 => if is_leap_year(y) {
            29
        } else {
            28
        },
        _ => 0,
    }
}

impl Time {
    /// The time with zero in every field.
    pub open spec fn zero() -> Time {
        Time {
            year: 0,
            month: 0,
            day_of_week: 0,
            day: 0,
            hour: 0,
            minute: 0,
            second: 0,
            milliseconds: 0,
        }
    }

    /// The time with zero in every field, which is no point in time.
    pub fn new() -> (r: Time)
        ensures
            r == Time::zero(),
    {
        Time {
            year: 0,
            month: 0,
            day_of_week: 0,
            day: 0,
            hour: 0,
            minute: 0,
            second: 0,
            milliseconds: 0,
        }
    }

    /// The point in time of a valid calendar time from 1970 on.
    pub open spec fn point(self) -> UnixTime {
        UnixTime {
            secs: self.unix_secs() as i64,
            nanos: (self.milliseconds * 1_000_000) as u32,
        }
    }

    /// Seconds from 1970-01-01 00:00:00 to the time.
    pub open spec fn unix_secs(self) -> int {
        day_number(self.year as int, self.month as int, self.day as int) * 86400 + self.hour * 3600
            + self.minute * 60 + self.second
    }

    /// Whether the fields are a date and a time of day.
    pub open spec fn valid(self) -> bool {
        &&& is_date(self.year as int, self.month as int, self.day as int)
        &&& self.hour < 24
        &&& self.minute < 60
        &&& self.second < 60
        &&& self.milliseconds < 1000
    }

    /// Whether the fields are those of a point in time. Of a year that does not fit, the
    /// low 16 bits are kept.
    pub open spec fn is_time_of(self, t: UnixTime) -> bool {
        let days = t.secs as int / 86400;
        let rem = t.secs as int % 86400;
        &&& exists|y: int|
            {
                &&& is_date(y, self.month as int, self.day as int)
                &&& #[trigger] day_number(y, self.month as int, self.day as int) == days
                &&& self.year == y % 65536
            }
        &&& self.day_of_week == (days + 4) % 7
        &&& self.hour == rem / 3600
        &&& self.minute == rem % 3600 / 60
        &&& self.second == rem % 60
        &&& self.milliseconds == t.nanos / 1_000_000
    }

    /// The calendar time of a point in time from 1970 on.
    pub fn from_system_time(st: UnixTime) -> (r: Option<Time>)
        requires
            st.nanos < 1_000_000_000,
        ensures
            r is Some <==> st.secs >= 0,
            r matches Some(t) ==> t.is_time_of(st),
    {
        if st.secs < 0 {
            return None;
        }
        let days: i64 = st.secs / 86_400;
        let rem: i64 = st.secs % 86_400;
        let (year, month, day) = civil_from_days(days);
        proof {
            lemma_year_range(year as int, month as int, day as int);
        }
        let t = Time {
            year: (year % 65536) as u16,
            month: month as u16,
            day_of_week: ((days + 4) % 7) as u16,
            day: day as u16,
            hour: (rem / 3600) as u16,
            minute: ((rem % 3600) / 60) as u16,
            second: (rem % 60) as u16,
            milliseconds: (st.nanos / 1_000_000) as u16,
        };
        proof {
            assert(day_number(year as int, t.month as int, t.day as int) == days);
        }
        Some(t)
    }

    /// The point in time of a calendar time from 1970 on.
    pub fn to_system_time(&self) -> (r: Option<UnixTime>)
        ensures
            r is Some <==> self.valid() && self.unix_secs() >= 0,
            r matches Some(t) ==> {
                &&& t == self.point()
                &&& t.secs == self.unix_secs()
                &&& t.nanos == self.milliseconds * 1_000_000
            },
    {
        let year: i32 = self.year as i32;
        let month: u32 = self.month as u32;
        let day: u32 = self.day as u32;
        if month < 1 || month > 12 || day < 1 || day > days_in_month(year, month) || self.hour >= 24
            || self.minute >= 60 || self.second >= 60 || self.milliseconds >= 1000 {
            return None;
        }
        let days: i64 = days_from_civil(year, month, day);
        let secs: i64 = days * 86_400 + self.hour as i64 * 3600 + self.minute as i64 * 60
            + self.second as i64;
        if secs < 0 {
            return None;
        }
        Some(UnixTime { secs, nanos: self.milliseconds as u32 * 1_000_000 })
    }

    /// Whether the fields are those that stand at `at` in the bytes.
    pub open spec fn reads(self, s: Seq<u8>, at: int) -> bool {
        &&& self.year == u16_at(s, at)
        &&& self.month == u16_at(s, at + 2)
        &&& self.day_of_week == u16_at(s, at + 4)
        &&& self.day == u16_at(s, at + 6)
        &&& self.hour == u16_at(s, at + 8)
        &&& self.minute == u16_at(s, at + 10)
        &&& self.second == u16_at(s, at + 12)
        &&& self.milliseconds == u16_at(s, at + 14)
    }

    /// The bytes of the time.
    pub open spec fn encoding(self) -> Seq<u8> {
        le_u16(self.year) + le_u16(self.month) + le_u16(self.day_of_week) + le_u16(self.day)
            + le_u16(self.hour) + le_u16(self.minute) + le_u16(self.second) + le_u16(
            self.milliseconds,
        )
    }

    pub(crate) fn parse(bytes: &[u8], at: usize) -> (r: Time)
        requires
            at + 16 <= bytes.len(),
        ensures
            r.reads(bytes@, at as int),
    {
        Time {
            year: read_u16(bytes, at),
            month: read_u16(bytes, at + 2),
            day_of_week: read_u16(bytes, at + 4),
            day: read_u16(bytes, at + 6),
            hour: read_u16(bytes, at + 8),
            minute: read_u16(bytes, at + 10),
            second: read_u16(bytes, at + 12),
            milliseconds: read_u16(bytes, at + 14),
        }
    }

    pub(crate) fn write_to(&self, out: &mut Vec<u8>)
        ensures
            final(out)@ == old(out)@ + self.encoding(),
    {
        put_u16(out, self.year);
        put_u16(out, self.month);
        put_u16(out, self.day_of_week);
        put_u16(out, self.day);
        put_u16(out, self.hour);
        put_u16(out, self.minute);
        put_u16(out, self.second);
        put_u16(out, self.milliseconds);
        proof {
            assert(out@ =~= old(out)@ + self.encoding());
        }
    }

    /// The bytes of a time at the end of a prefix are read back from there.
    pub proof fn lemma_field_time(self, before: Seq<u8>, s: Seq<u8>)
        requires
            starts_with(s, before + self.encoding()),
        ensures
            starts_with(s, before),
            self.encoding().len() == 16,
            self.reads(s, before.len() as int),
            before.len() + 16 <= s.len(),
    {
        let c1 = before + le_u16(self.year);
        let c2 = c1 + le_u16(self.month);
        let c3 = c2 + le_u16(self.day_of_week);
        let c4 = c3 + le_u16(self.day);
        let c5 = c4 + le_u16(self.hour);
        let c6 = c5 + le_u16(self.minute);
        let c7 = c6 + le_u16(self.second);
        assert(before + self.encoding() =~= c7 + le_u16(self.milliseconds));
        lemma_field_u16(c7, self.milliseconds, s);
        lemma_field_u16(c6, self.second, s);
        lemma_field_u16(c5, self.minute, s);
        lemma_field_u16(c4, self.hour, s);
        lemma_field_u16(c3, self.day, s);
        lemma_field_u16(c2, self.day_of_week, s);
        lemma_field_u16(c1, self.month, s);
        lemma_field_u16(before, self.year, s);
    }

    /// The bytes of a time that was read are those that it was read from.
    pub proof fn lemma_write_of_read(self, s: Seq<u8>, at: int)
        requires
            0 <= at,
            at + 16 <= s.len(),
            self.reads(s, at),
        ensures
            self.encoding() == s.subrange(at, at + 16),
    {
        lemma_le_u16_at(s, at);
        lemma_le_u16_at(s, at + 2);
        lemma_le_u16_at(s, at + 4);
        lemma_le_u16_at(s, at + 6);
        lemma_le_u16_at(s, at + 8);
        lemma_le_u16_at(s, at + 10);
        lemma_le_u16_at(s, at + 12);
        lemma_le_u16_at(s, at + 14);
        assert(self.encoding() =~= s.subrange(at, at + 16));
    }

    /// The calendar time of a point in time, up to the year 65535, is a valid one, and
    /// names that point up to the millisecond.
    pub proof fn law_unix_of_time_of(self, t: UnixTime)
        requires
            self.is_time_of(t),
            t.nanos < 1_000_000_000,
            0 <= t.secs < 2005949145600,
        ensures
            self.valid(),
            self.unix_secs() == t.secs,
            self.milliseconds * 1_000_000 <= t.nanos < (self.milliseconds + 1) * 1_000_000,
    {
        let days = t.secs as int / 86400;
        let y = choose|y: int|
            {
                &&& is_date(y, self.month as int, self.day as int)
                &&& #[trigger] day_number(y, self.month as int, self.day as int) == days
                &&& self.year == y % 65536
            };
        lemma_year_range(y, self.month as int, self.day as int);
        assert(days < 23217004);
        if y >= 65536 {
            lemma_days_before_march_grows(65535, march_year(y, self.month as int));
            assert(days_before_march(65535) == 23936166);
            assert(y > 65536 || self.month >= 3 || self.month <= 2);
            lemma_year_starts(self.month as int, self.day as int);
            assert(day_number(65536, 1, 1) == 23217004);
            if y > 65536 {
                lemma_days_before_march_grows(65536, march_year(y, self.month as int));
                assert(days_before_march(65536) >= 23936166 + 365);
            }
        }
    }

    /// A valid calendar time, with the day of the week that belongs to it, is the calendar
    /// time of its point in time.
    pub proof fn law_time_of_unix_of(self, t: UnixTime)
        requires
            self.valid(),
            self.unix_secs() >= 0,
            self.day_of_week == (day_number(
                self.year as int,
                self.month as int,
                self.day as int,
            ) + 4) % 7,
            t.secs == self.unix_secs(),
            t.nanos == self.milliseconds * 1_000_000,
        ensures
            self.is_time_of(t),
    {
        let n = day_number(self.year as int, self.month as int, self.day as int);
        let rest = self.hour * 3600 + self.minute * 60 + self.second;
        assert(0 <= rest < 86400);
        assert(t.secs as int / 86400 == n);
        assert(t.secs as int % 86400 == rest);
        assert(self.year as int % 65536 == self.year);
        assert(day_number(self.year as int, self.month as int, self.day as int) == t.secs as int
            / 86400);
    }
}

/// A date from 1970 on is in a year from 1970 on.
proof fn lemma_year_range(y: int, m: int, d: int)
    requires
        is_date(y, m, d),
        day_number(y, m, d) >= 0,
    ensures
        y >= 1970,
{
    if y < 1970 {
        lemma_year_ends(y, m, d);
        let a = march_year(y, m);
        if a < 1969 {
            lemma_days_before_march_grows(a + 1, 1969);
            assert(days_before_march(1969) < 719468);
        } else {
            assert(a == 1969 && m >= 3);
            lemma_month_ends(y, m, d);
            lemma_days_since_march_grows(march_month(m) + 1, 10);
            assert(days_before_march(1969) + days_since_march(10) == 719468);
        }
    }
}

} // verus!
