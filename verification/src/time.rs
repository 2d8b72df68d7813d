//! Time spans and UTC calendar time.
use vstd::prelude::*;

use crate::text;
use crate::text::{cat3, cat5, cat6, zero_padded_text};

verus! {

/// What the `Debug` form of a [`std::time::Duration`] of `secs` seconds and
/// `nanos` nanoseconds is.
pub uninterp spec fn duration_debug(secs: u64, nanos: u32) -> Seq<char>;

/// Calls `format!` on the `Debug` form of a [`std::time::Duration`]. The result
/// is named by [`duration_debug`]; fewer than a thousand million nanoseconds
/// carry nothing over into the seconds.
#[verifier::external_body]
fn duration_text(secs: u64, nanos: u32) -> (r: String)
    requires
        nanos < 1_000_000_000,
    ensures
        r@ == duration_debug(secs, nanos),
{
    format!("{:?}", std::time::Duration::new(secs, nanos))
}

/// A span of time: whole seconds and the nanoseconds beyond them.
#[derive(Debug, Clone, Copy, PartialEq, Eq, Structural)]
pub struct TimeSpan {
    secs: u64,
    nanos: u32,
}

impl View for TimeSpan {
    type V = (u64, u32);

    closed spec fn view(&self) -> (u64, u32) {
        (self.secs, self.nanos)
    }
}

/// The whole of a span, in nanoseconds.
pub open spec fn nanoseconds(span: (u64, u32)) -> nat {
    (span.0 * 1_000_000_000 + span.1) as nat
}

impl TimeSpan {
    #[verifier::type_invariant]
    spec fn well_formed(self) -> bool {
        self.nanos < 1_000_000_000
    }

    /// The whole span in nanoseconds.
    pub closed spec fn total(self) -> nat {
        (self.secs * 1_000_000_000 + self.nanos) as nat
    }

    /// The whole span is that of its seconds and its nanoseconds.
    pub broadcast proof fn total_is_that_of_the_parts(span: TimeSpan)
        ensures
            #[trigger] span.total() == nanoseconds(span@),
    {
    }

    /// A span of seconds and nanoseconds.
    pub fn new(secs: u64, nanos: u32) -> (r: Self)
        requires
            nanos < 1_000_000_000,
        ensures
            r@ == (secs, nanos),
            r.total() == secs * 1_000_000_000 + nanos,
    {
        TimeSpan { secs, nanos }
    }

    /// A span of whole seconds.
    pub fn from_secs(secs: u64) -> (r: Self)
        ensures
            r@ == (secs, 0u32),
            r.total() == secs * 1_000_000_000,
    {
        TimeSpan { secs, nanos: 0 }
    }

    /// The whole seconds of the span.
    pub fn as_secs(&self) -> (r: u64)
        ensures
            r == self@.0,
    {
        self.secs
    }

    /// The nanoseconds beyond the whole seconds.
    pub fn subsec_nanos(&self) -> (r: u32)
        ensures
            r == self@.1,
            r < 1_000_000_000,
    {
        proof {
            use_type_invariant(*self);
        }
        self.nanos
    }

    /// Whether the span is empty.
    pub fn is_zero(&self) -> (r: bool)
        ensures
            r == (self.total() == 0),
            r == (self@ == (0u64, 0u32)),
    {
        self.secs == 0 && self.nanos == 0
    }

    /// Whether the span is as long as `other` or longer.
    pub fn at_least(&self, other: &TimeSpan) -> (r: bool)
        ensures
            r == (self.total() >= other.total()),
    {
        proof {
            use_type_invariant(*self);
            use_type_invariant(*other);
        }
        self.secs > other.secs || (self.secs == other.secs && self.nanos >= other.nanos)
    }

    /// The span without `other`, or the empty span when `other` is longer.
    pub fn saturating_sub(&self, other: &TimeSpan) -> (r: TimeSpan)
        ensures
            r.total() == if self.total() >= other.total() {
                self.total() - other.total()
            } else {
                0
            },
    {
        if !self.at_least(other) {
            return TimeSpan { secs: 0, nanos: 0 };
        }
        proof {
            use_type_invariant(*self);
            use_type_invariant(*other);
        }
        if self.nanos >= other.nanos {
            TimeSpan { secs: self.secs - other.secs, nanos: self.nanos - other.nanos }
        } else {
            TimeSpan {
                secs: self.secs - other.secs - 1,
                nanos: 1_000_000_000 - other.nanos + self.nanos,
            }
        }
    }

    /// The shorter of two spans.
    pub fn shorter(&self, other: &TimeSpan) -> (r: TimeSpan)
        ensures
            r == if self.total() >= other.total() {
                *other
            } else {
                *self
            },
    {
        if self.at_least(other) {
            *other
        } else {
            *self
        }
    }

    /// The span as diagnostics show it.
    pub fn to_debug(&self) -> (r: String)
        ensures
            r@ == duration_debug(self@.0, self@.1),
    {
        proof {
            use_type_invariant(*self);
        }
        duration_text(self.secs, self.nanos)
    }
}

/// Whether `year` is a leap year of the Gregorian calendar.
pub open spec fn is_leap(year: int) -> bool {
    year % 4 == 0 && (year % 100 != 0 || year % 400 == 0)
}

/// The number of days in a month.
pub open spec fn days_in_month(year: int, month: int) -> int {
    if month == 2 {
        if is_leap(year) {
            29
        } else {
            28
        }
    } else if month == 4 || month == 6 || month == 9 || month == 11 {
        30
    } else {
        31
    }
}

/// Whether a year, a month and a day make a date.
pub open spec fn is_date(year: int, month: int, day: int) -> bool {
    1 <= month <= 12 && 1 <= day <= days_in_month(year, month)
}

/// The number of days of a year that precede a month.
pub open spec fn days_before_month(year: int, month: int) -> int {
    (if month <= 1 {
        0int
    } else if month == 2 {
        31
    } else if month == 3 {
        59
    } else if month == 4 {
        90
    } else if month == 5 {
        120
    } else if month == 6 {
        151
    } else if month == 7 {
        181
    } else if month == 8 {
        212
    } else if month == 9 {
        243
    } else if month == 10 {
        273
    } else if month == 11 {
        304
    } else {
        334
    }) + (if month > 2 && is_leap(year) {
        1int
    } else {
        0
    })
}

/// The number of days from the first day of year 1 to the first day of `year`.
pub open spec fn days_before_year(year: int) -> int {
    365 * (year - 1) + (year - 1) / 4 - (year - 1) / 100 + (year - 1) / 400
}

/// The number of days from 1970-01-01 to a date.
pub open spec fn day_number(year: int, month: int, day: int) -> int {
    days_before_year(year) - days_before_year(1970) + days_before_month(year, month) + day - 1
}

/// The year of a 400-year era, counted from March, in which a day of the era
/// falls, and the day of that year.
proof fn year_of_era_is_right(day: int)
    requires
        0 <= day <= 146_096,
    ensures
        ({
            let year = (day - day / 1_460 + day / 36_524 - day / 146_096) / 365;
            let rest = day - (365 * year + year / 4 - year / 100);
            &&& 0 <= year <= 399
            &&& 0 <= rest <= 365
            &&& rest == 365 ==> is_leap(year + 1)
        }),
{
    let century = day / 36_524;
    let r = day - 36_524 * century;
    if century < 4 {
        let group = r / 1_461;
        let q = r - 1_461 * group;
        let j = if q == 1_460 {
            3
        } else {
            q / 365
        };
        let k = 4 * group + j;
        assert(0 <= group <= 24 && 0 <= q <= 1_460 && 0 <= j <= 3);
        assert(day / 146_096 == 0);
        let extra = group + q + 24 * century;
        assert(day == 1_460 * (25 * century + group) + extra);
        let carry = if extra >= 1_460 {
            1int
        } else {
            0
        };
        assert(day / 1_460 == 25 * century + group + carry);
        let n = day - day / 1_460 + day / 36_524 - day / 146_096;
        assert(n == 365 * (100 * century + 4 * group) + q - carry);
        assert(carry == 1 ==> q >= 1_364);
        assert((q - carry) / 365 == j);
        let year = n / 365;
        assert(year == 100 * century + k);
        assert(year / 4 == 25 * century + group);
        assert(year / 100 == century);
        let rest = day - (365 * year + year / 4 - year / 100);
        assert(rest == q - 365 * j);
        if rest == 365 {
            assert(q == 1_460);
            assert(group < 24);
            assert(year + 1 == 4 * (25 * century + group + 1));
            assert((year + 1) % 100 == 4 * (group + 1));
        }
    } else {
        assert(day == 146_096);
    }
}

/// The quotient by `d` grows by one exactly at the multiples of `d`.
proof fn quotient_step(n: int, d: int)
    requires
        d > 0,
    ensures
        n / d - (n - 1) / d == (if n % d == 0 {
            1int
        } else {
            0
        }),
{
    vstd::arithmetic::div_mod::lemma_fundamental_div_mod(n, d);
    if n % d == 0 {
        assert(n - 1 == (n / d - 1) * d + (d - 1)) by (nonlinear_arith)
            requires
                n == d * (n / d) + n % d,
                n % d == 0,
        ;
        vstd::arithmetic::div_mod::lemma_fundamental_div_mod_converse(n - 1, d, n / d - 1, d - 1);
    } else {
        assert(n - 1 == (n / d) * d + (n % d - 1)) by (nonlinear_arith)
            requires
                n == d * (n / d) + n % d,
        ;
        vstd::arithmetic::div_mod::lemma_fundamental_div_mod_converse(n - 1, d, n / d, n % d - 1);
    }
}

/// Adding `a` times `d` adds `a` to the quotient by `d` and keeps the remainder.
proof fn quotient_shift(n: int, a: int, d: int)
    requires
        d > 0,
    ensures
        (n + a * d) / d == n / d + a,
        (n + a * d) % d == n % d,
{
    vstd::arithmetic::div_mod::lemma_fundamental_div_mod(n, d);
    assert(n + a * d == (n / d + a) * d + n % d) by (nonlinear_arith)
        requires
            n == d * (n / d) + n % d,
    ;
    vstd::arithmetic::div_mod::lemma_fundamental_div_mod_converse(n + a * d, d, n / d + a, n % d);
}

/// A leap year is one day longer than a common one.
proof fn year_length(year: int)
    ensures
        days_before_year(year + 1) == days_before_year(year) + 365 + (if is_leap(year) {
            1int
        } else {
            0
        }),
{
    quotient_step(year, 4);
    quotient_step(year, 100);
    quotient_step(year, 400);
    vstd::arithmetic::div_mod::lemma_fundamental_div_mod(year, 100);
    vstd::arithmetic::div_mod::lemma_fundamental_div_mod(year, 400);
    if year % 100 == 0 {
        assert(year == 0 + (25 * (year / 100)) * 4);
        quotient_shift(0, 25 * (year / 100), 4);
    }
    if year % 400 == 0 {
        assert(year == 0 + (4 * (year / 400)) * 100);
        quotient_shift(0, 4 * (year / 400), 100);
    }
}

/// Leap years and the days before them repeat with every era of 400 years.
proof fn eras_repeat(era: int, year: int)
    requires
        0 <= year <= 399,
    ensures
        is_leap(year + 400 * era + 1) == is_leap(year + 1),
        days_before_year(year + 400 * era + 1) == 146_097 * era + 365 * year + year / 4 - year
            / 100,
{
    quotient_shift(year + 1, 100 * era, 4);
    quotient_shift(year + 1, 4 * era, 100);
    quotient_shift(year + 1, era, 400);
    quotient_shift(year, 100 * era, 4);
    quotient_shift(year, 4 * era, 100);
    quotient_shift(year, era, 400);
}

/// The day of a year that starts in March determines month and day.
proof fn month_and_day_are_right(year: int, rest: int)
    requires
        0 <= rest <= 365,
        rest == 365 ==> is_leap(year + 1),
    ensures
        ({
            let mp = (5 * rest + 2) / 153;
            let day = rest - (153 * mp + 2) / 5 + 1;
            let month = if mp < 10 {
                mp + 3
            } else {
                mp - 9
            };
            let civil = if month <= 2 {
                year + 1
            } else {
                year
            };
            &&& 0 <= mp <= 11
            &&& is_date(civil, month, day)
            &&& day_number(civil, month, day) == days_before_year(year + 1) - days_before_year(1970)
                + rest - 306
        }),
{
    let mp = (5 * rest + 2) / 153;
    year_length(year);
    assert(0 <= mp <= 11);
    if mp == 0 {
    } else if mp == 1 {
    } else if mp == 2 {
    } else if mp == 3 {
    } else if mp == 4 {
    } else if mp == 5 {
    } else if mp == 6 {
    } else if mp == 7 {
    } else if mp == 8 {
    } else if mp == 9 {
    } else if mp == 10 {
    } else {
    }
}

/// The calendar date of a day counted from 1970-01-01.
pub open spec fn date_of(day: int) -> (int, int, int) {
    choose|date: (int, int, int)|
        is_date(date.0, date.1, date.2) && #[trigger] day_number(date.0, date.1, date.2) == day
}

/// The calendar date of a day counted from 1970-01-01.
#[verifier::spinoff_prover]
#[verifier::rlimit(40)]
pub fn civil_from_days(days: i64) -> (r: (i64, u32, u32))
    requires
        days <= i64::MAX - 719_468,
    ensures
        is_date(r.0 as int, r.1 as int, r.2 as int),
        day_number(r.0 as int, r.1 as int, r.2 as int) == days,
        date_of(days as int) == (r.0 as int, r.1 as int, r.2 as int),
{
    let z: i64 = days + 719_468;
    let era: i64 = if z >= 0 {
        z / 146_097
    } else {
        -((-(z + 1)) / 146_097) - 1
    };
    assert(era == z as int / 146_097);
    let day_of_era: i64 = z - era * 146_097;
    proof {
        year_of_era_is_right(day_of_era as int);
    }
    let year_of_era: i64 = (day_of_era - day_of_era / 1_460 + day_of_era / 36_524 - day_of_era
        / 146_096) / 365;
    let day_of_year: i64 = day_of_era - (365 * year_of_era + year_of_era / 4 - year_of_era / 100);
    let month_prime: i64 = (5 * day_of_year + 2) / 153;
    let day: i64 = day_of_year - (153 * month_prime + 2) / 5 + 1;
    let month: i64 = if month_prime < 10 {
        month_prime + 3
    } else {
        month_prime - 9
    };
    let year: i64 = year_of_era + era * 400;
    proof {
        eras_repeat(era as int, year_of_era as int);
        month_and_day_are_right(year as int, day_of_year as int);
    }
    let civil: i64 = if month <= 2 {
        year + 1
    } else {
        year
    };
    proof {
        let date = (civil as int, month as int, day as int);
        assert(day_number(date.0, date.1, date.2) == days);
        let chosen = date_of(days as int);
        day_numbers_tell_dates_apart(date.0, date.1, date.2, chosen.0, chosen.1, chosen.2);
    }
    (civil, month as u32, day as u32)
}

/// A day has only one date: two dates with the same day number are the same.
pub proof fn day_numbers_tell_dates_apart(y1: int, m1: int, d1: int, y2: int, m2: int, d2: int)
    requires
        is_date(y1, m1, d1),
        is_date(y2, m2, d2),
        day_number(y1, m1, d1) == day_number(y2, m2, d2),
    ensures
        y1 == y2 && m1 == m2 && d1 == d2,
{
    if y1 < y2 {
        years_accumulate(y1, y2);
        day_within_year(y1, m1, d1);
        day_within_year(y2, m2, d2);
    } else if y2 < y1 {
        years_accumulate(y2, y1);
        day_within_year(y1, m1, d1);
        day_within_year(y2, m2, d2);
    }
}

proof fn years_accumulate(a: int, b: int)
    requires
        a < b,
    ensures
        days_before_year(b) >= days_before_year(a) + 365 + (if is_leap(a) {
            1int
        } else {
            0
        }),
    decreases b - a,
{
    year_length(b - 1);
    if a < b - 1 {
        years_accumulate(a, b - 1);
    }
}

proof fn day_within_year(year: int, month: int, day: int)
    requires
        is_date(year, month, day),
    ensures
        0 <= days_before_month(year, month) + day - 1 < 365 + (if is_leap(year) {
            1int
        } else {
            0
        }),
{
}

proof fn days_after_epoch_have_years(year: int, month: int, day: int)
    requires
        is_date(year, month, day),
        day_number(year, month, day) >= 0,
    ensures
        year >= 1970,
{
    day_within_year(year, month, day);
    if year < 1970 {
        years_accumulate(year, 1970);
    }
}

/// The date of a second counted from 1970-01-01, as `YYYY-MM-DD` with `sep` for
/// the hyphen.
pub open spec fn date_text(secs: int, sep: Seq<char>) -> Seq<char> {
    let date = date_of(secs / 86_400);
    text::zero_padded(date.0 as nat, 4) + sep + text::zero_padded(date.1 as nat, 2) + sep
        + text::zero_padded(date.2 as nat, 2)
}

/// The time of day of a second counted from 1970-01-01, as `HH:MM:SS` with
/// `sep` for the colon.
pub open spec fn clock_text(secs: int, sep: Seq<char>) -> Seq<char> {
    text::zero_padded((secs % 86_400 / 3_600) as nat, 2) + sep + text::zero_padded(
        (secs % 3_600 / 60) as nat,
        2,
    ) + sep + text::zero_padded((secs % 60) as nat, 2)
}

fn date_with(secs: u64, sep: &str) -> (r: String)
    ensures
        r@ == date_text(secs as int, sep@),
{
    let days: i64 = (secs / 86_400) as i64;
    let (year, month, day): (i64, u32, u32) = civil_from_days(days);
    proof {
        days_after_epoch_have_years(year as int, month as int, day as int);
    }
    let y = zero_padded_text(year as u64, 4);
    let m = zero_padded_text(month as u64, 2);
    let d = zero_padded_text(day as u64, 2);
    cat5(y.as_str(), sep, m.as_str(), sep, d.as_str())
}

fn clock_with(secs: u64, sep: &str) -> (r: String)
    ensures
        r@ == clock_text(secs as int, sep@),
{
    let hour = zero_padded_text(secs % 86_400 / 3_600, 2);
    let minute = zero_padded_text(secs % 3_600 / 60, 2);
    let second = zero_padded_text(secs % 60, 2);
    cat5(hour.as_str(), sep, minute.as_str(), sep, second.as_str())
}

/// The RFC 3339 form of a UTC time with millisecond precision.
pub open spec fn rfc3339_text(secs: int, millis: int) -> Seq<char> {
    date_text(secs, "-"@) + "T"@ + clock_text(secs, ":"@) + "."@ + text::zero_padded(
        millis as nat,
        3,
    ) + "Z"@
}

/// The RFC 3339 form of the time `secs` seconds and `millis` milliseconds after
/// 1970-01-01.
pub fn rfc3339(secs: u64, millis: u32) -> (r: String)
    ensures
        r@ == rfc3339_text(secs as int, millis as int),
{
    let date = date_with(secs, "-");
    let clock = clock_with(secs, ":");
    let fraction = zero_padded_text(millis as u64, 3);
    cat6(date.as_str(), "T", clock.as_str(), ".", fraction.as_str(), "Z")
}

/// UTC time of day as `HH:MM:SS`.
pub fn utc_time(secs: u64) -> (r: String)
    ensures
        r@ == clock_text(secs as int, ":"@),
{
    clock_with(secs, ":")
}

/// UTC date and time of day.
pub fn utc_parts(secs: u64) -> (r: (String, String))
    ensures
        r.0@ == date_text(secs as int, "-"@),
        r.1@ == clock_text(secs as int, ":"@),
{
    (date_with(secs, "-"), clock_with(secs, ":"))
}

/// A stamp for file names: `YYYYMMDD-HHMMSS`.
pub open spec fn stamp_text(secs: int) -> Seq<char> {
    date_text(secs, ""@) + "-"@ + clock_text(secs, ""@)
}

/// A stamp for file names: `YYYYMMDD-HHMMSS`.
pub fn utc_stamp_compact(secs: u64) -> (r: String)
    ensures
        r@ == stamp_text(secs as int),
{
    let date = date_with(secs, "");
    let clock = clock_with(secs, "");
    cat3(date.as_str(), "-", clock.as_str())
}

/// Dates follow each other by a day: within a month, from the last of a month to the first
/// of the next, and from the last of a year to the first of the next. The first day is
/// that of the epoch.
pub proof fn days_follow_each_other(year: int, month: int, day: int)
    requires
        is_date(year, month, day),
    ensures
        day_number(1970, 1, 1) == 0,
        day < days_in_month(year, month) ==> day_number(year, month, day + 1) == day_number(
            year,
            month,
            day,
        ) + 1,
        day == days_in_month(year, month) && month < 12 ==> day_number(year, month + 1, 1)
            == day_number(year, month, day) + 1,
        day == 31 && month == 12 ==> day_number(year + 1, 1, 1) == day_number(year, month, day) + 1,
{
}

/// Months have their lengths, and a leap year is every fourth, but of the full centuries
/// only every fourth.
pub proof fn months_have_their_lengths(year: int)
    ensures
        days_in_month(year, 1) == 31 && days_in_month(year, 3) == 31 && days_in_month(year, 5) == 31
            && days_in_month(year, 7) == 31 && days_in_month(year, 8) == 31 && days_in_month(
            year,
            10,
        ) == 31 && days_in_month(year, 12) == 31,
        days_in_month(year, 4) == 30 && days_in_month(year, 6) == 30 && days_in_month(year, 9) == 30
            && days_in_month(year, 11) == 30,
        year % 4 != 0 ==> days_in_month(year, 2) == 28,
        year % 4 == 0 && year % 100 != 0 ==> days_in_month(year, 2) == 29,
        year % 100 == 0 && year % 400 != 0 ==> days_in_month(year, 2) == 28,
        year % 400 == 0 ==> days_in_month(year, 2) == 29,
{
}

/// A moment is written with the numbers of its date and of its time of day.
pub proof fn moments_are_written_in_full(
    year: int,
    month: int,
    day: int,
    hour: int,
    minute: int,
    second: int,
    sep: Seq<char>,
    millis: int,
)
    requires
        is_date(year, month, day),
        0 <= hour < 24,
        0 <= minute < 60,
        0 <= second < 60,
    ensures
        ({
            let secs = day_number(year, month, day) * 86_400 + hour * 3_600 + minute * 60 + second;
            &&& date_text(secs, sep) == text::zero_padded(year as nat, 4) + sep
                + text::zero_padded(month as nat, 2) + sep + text::zero_padded(day as nat, 2)
            &&& clock_text(secs, sep) == text::zero_padded(hour as nat, 2) + sep
                + text::zero_padded(minute as nat, 2) + sep + text::zero_padded(second as nat, 2)
            &&& rfc3339_text(secs, millis) == date_text(secs, "-"@) + "T"@ + clock_text(secs, ":"@)
                + "."@ + text::zero_padded(millis as nat, 3) + "Z"@
            &&& stamp_text(secs) == date_text(secs, ""@) + "-"@ + clock_text(secs, ""@)
        }),
{
    let days = day_number(year, month, day);
    let secs = days * 86_400 + hour * 3_600 + minute * 60 + second;
    parts_of_the_day(days, hour, minute, second);
    let date = date_of(days);
    let wanted = (year, month, day);
    assert(is_date(wanted.0, wanted.1, wanted.2) && day_number(wanted.0, wanted.1, wanted.2)
        == days);
    day_numbers_tell_dates_apart(date.0, date.1, date.2, year, month, day);
}

proof fn parts_of_the_day(days: int, hour: int, minute: int, second: int)
    requires
        0 <= hour < 24,
        0 <= minute < 60,
        0 <= second < 60,
    ensures
        ({
            let secs = days * 86_400 + hour * 3_600 + minute * 60 + second;
            &&& secs / 86_400 == days
            &&& secs % 86_400 / 3_600 == hour
            &&& secs % 3_600 / 60 == minute
            &&& secs % 60 == second
        }),
{
    let secs = days * 86_400 + hour * 3_600 + minute * 60 + second;
    let in_hour = minute * 60 + second;
    let in_day = hour * 3_600 + in_hour;
    vstd::arithmetic::div_mod::lemma_fundamental_div_mod_converse(secs, 86_400, days, in_day);
    vstd::arithmetic::div_mod::lemma_fundamental_div_mod_converse(in_day, 3_600, hour, in_hour);
    vstd::arithmetic::div_mod::lemma_fundamental_div_mod_converse(
        secs,
        3_600,
        days * 24 + hour,
        in_hour,
    );
    vstd::arithmetic::div_mod::lemma_fundamental_div_mod_converse(in_hour, 60, minute, second);
    vstd::arithmetic::div_mod::lemma_fundamental_div_mod_converse(
        secs,
        60,
        days * 1_440 + hour * 60 + minute,
        second,
    );
}

} // verus!
