//! Calendar values and epoch conversion.
//!
//! Dates and timestamps are plain calendar values in the proleptic Gregorian
//! calendar. Binary encodings measure them from the fixed reference points
//! 2000-01-01 (dates, in days) and 2000-01-01T00:00:00 (timestamps, in
//! microseconds).

use vstd::prelude::*;

verus! {

/// A calendar date. Years run from 1 to 9999, so that the ISO-8601 text
/// rendering is always the ten-byte `YYYY-MM-DD` form.
#[derive(Clone, Copy, PartialEq, Eq, Structural, Debug)]
pub struct Date {
    pub year: i32,
    pub month: u8,
    pub day: u8,
}

/// A calendar date and time of day, at microsecond resolution.
#[derive(Clone, Copy, PartialEq, Eq, Structural, Debug)]
pub struct Timestamp {
    pub date: Date,
    pub hour: u8,
    pub minute: u8,
    pub second: u8,
    pub micro: u32,
}

/// Leap years of the proleptic Gregorian calendar.
pub open spec fn is_leap(y: int) -> bool {
    y % 4 == 0 && (y % 100 != 0 || y % 400 == 0)
}

/// Days in a month.
pub open spec fn days_in_month(y: int, m: int) -> int {
    if m == 2 {
        if is_leap(y) {
            29
        } else {
            28
        }
    } else if m == 4 || m == 6 || m == 9 || m == 11 {
        30
    } else {
        31
    }
}

/// Days from the first of the year to the first of month `m`.
pub open spec fn days_before_month(y: int, m: int) -> int
    decreases m,
{
    if m <= 1 {
        0
    } else {
        days_before_month(y, m - 1) + days_in_month(y, m - 1)
    }
}

/// Days from 0001-01-01 to the first of year `y`: 365 per year, plus one per
/// leap year before `y`.
pub open spec fn days_before_year(y: int) -> int {
    365 * (y - 1) + (y - 1) / 4 - (y - 1) / 100 + (y - 1) / 400
}

/// The day count of a calendar date, with 0001-01-01 as day 0.
pub open spec fn day_number(y: int, m: int, d: int) -> int {
    days_before_year(y) + days_before_month(y, m) + (d - 1)
}

/// Day number of the date epoch, 2000-01-01.
pub open spec fn epoch_day_number() -> int {
    day_number(2000, 1, 1)
}

/// The calendar day count from 2000-01-01 to the date.
pub open spec fn date_offset(d: Date) -> int {
    day_number(d.year as int, d.month as int, d.day as int) - epoch_day_number()
}

/// Microseconds from midnight to the timestamp's time of day.
pub open spec fn micros_of_day(t: Timestamp) -> int {
    ((t.hour as int) * 3600 + (t.minute as int) * 60 + (t.second as int)) * 1_000_000
        + (t.micro as int)
}

/// The microsecond count from 2000-01-01T00:00:00 to the timestamp.
pub open spec fn timestamp_offset(t: Timestamp) -> int {
    date_offset(t.date) * 86_400_000_000 + micros_of_day(t)
}

impl Date {
    /// A date is valid when the month exists and the day exists in it.
    pub open spec fn valid(self) -> bool {
        &&& 1 <= self.year <= 9999
        &&& 1 <= self.month <= 12
        &&& 1 <= self.day <= days_in_month(self.year as int, self.month as int)
    }

    /// Builds a date, rejecting calendar-invalid combinations.
    pub fn new(year: i32, month: u8, day: u8) -> (r: Option<Date>)
        ensures
            r is Some <==> (Date { year, month, day }).valid(),
            r is Some ==> r->0 == (Date { year, month, day }),
    {
        if 1 <= year && year <= 9999 && 1 <= month && month <= 12 && 1 <= day && day
            <= month_days(year, month) {
            Some(Date { year, month, day })
        } else {
            None
        }
    }
}

impl Timestamp {
    /// A timestamp is valid when its date is and its time of day is in range.
    pub open spec fn valid(self) -> bool {
        &&& self.date.valid()
        &&& self.hour < 24
        &&& self.minute < 60
        &&& self.second < 60
        &&& self.micro < 1_000_000
    }

    /// Builds a timestamp, rejecting out-of-range fields.
    pub fn new(date: Date, hour: u8, minute: u8, second: u8, micro: u32) -> (r: Option<
        Timestamp,
    >)
        requires
            date.valid(),
        ensures
            r is Some <==> (Timestamp { date, hour, minute, second, micro }).valid(),
            r is Some ==> r->0 == (Timestamp { date, hour, minute, second, micro }),
    {
        if hour < 24 && minute < 60 && second < 60 && micro < 1_000_000 {
            Some(Timestamp { date, hour, minute, second, micro })
        } else {
            None
        }
    }
}

/// Days in a month, exec counterpart of [`days_in_month`].
pub fn month_days(year: i32, month: u8) -> (r: u8)
    requires
        1 <= year <= 9999,
        1 <= month <= 12,
    ensures
        r as int == days_in_month(year as int, month as int),
{
    let y = year as u32;
    if month == 2 {
        if y % 4 == 0 && (y % 100 != 0 || y % 400 == 0) {
            29
        } else {
            28
        }
    } else if month == 4 || month == 6 || month == 9 || month == 11 {
        30
    } else {
        31
    }
}

/// `days_before_month` stays between 0 and 336 for months 1 to 13.
proof fn lemma_days_before_month_bounds(y: int, m: int)
    requires
        1 <= m <= 13,
    ensures
        0 <= days_before_month(y, m) <= 31 * (m - 1),
    decreases m,
{
    if m > 1 {
        lemma_days_before_month_bounds(y, m - 1);
    }
}

/// The calendar day count from 2000-01-01, exec counterpart of
/// [`date_offset`].
pub fn epoch_days(d: &Date) -> (r: i32)
    requires
        d.valid(),
    ensures
        r as int == date_offset(*d),
        -730119 <= r as int <= 2922000,
{
    let yy = (d.year - 1) as u64;
    let before_year: u64 = 365 * yy + yy / 4 - yy / 100 + yy / 400;
    proof {
        assert(yy / 100 <= yy / 4) by (nonlinear_arith);
        assert(before_year as int == days_before_year(d.year as int));
        assert(yy / 4 <= 2499 && yy / 100 <= 99 && yy / 400 <= 24) by (nonlinear_arith)
            requires
                yy <= 9998,
        ;
    }
    let mut m: u8 = 1;
    let mut acc: u64 = 0;
    while m < d.month
        invariant
            d.valid(),
            1 <= m <= d.month,
            acc as int == days_before_month(d.year as int, m as int),
            acc <= 31 * (m as u64 - 1),
        decreases d.month - m,
    {
        acc = acc + month_days(d.year, m) as u64;
        m = m + 1;
    }
    let dn: u64 = before_year + acc + (d.day - 1) as u64;
    proof {
        lemma_days_before_month_bounds(d.year as int, d.month as int);
    }
    (dn as i64 - 730119) as i32
}

/// Microseconds from 2000-01-01T00:00:00, exec counterpart of
/// [`timestamp_offset`]. The offset of every valid timestamp fits in an
/// `i64` microsecond count.
pub fn epoch_micros(t: &Timestamp) -> (r: i64)
    requires
        t.valid(),
    ensures
        r as int == timestamp_offset(*t),
{
    let days = epoch_days(&t.date) as i64;
    let day_part: i64 = ((t.hour as i64) * 3600 + (t.minute as i64) * 60 + (t.second as i64))
        * 1_000_000 + (t.micro as i64);
    proof {
        assert(-730119 * 86_400_000_000 <= days * 86_400_000_000 <= 2922000 * 86_400_000_000)
            by (nonlinear_arith)
            requires
                -730119 <= days <= 2922000,
        ;
    }
    days * 86_400_000_000 + day_part
}

/// The calendar day after `d` (well formed for every valid date; the day
/// after 9999-12-31 falls outside the representable years, but the day-count
/// specifications are total).
pub open spec fn next_date(d: Date) -> Date {
    if (d.day as int) < days_in_month(d.year as int, d.month as int) {
        Date { year: d.year, month: d.month, day: (d.day + 1) as u8 }
    } else if d.month < 12 {
        Date { year: d.year, month: (d.month + 1) as u8, day: 1 }
    } else {
        Date { year: (d.year + 1) as i32, month: 1, day: 1 }
    }
}

/// Stepping `y` past a multiple of `k` raises the quotient by one, otherwise
/// leaves it unchanged.
proof fn lemma_div_step(y: int, k: int)
    requires
        k > 0,
    ensures
        y / k - (y - 1) / k == if y % k == 0 {
            1int
        } else {
            0int
        },
{
    vstd::arithmetic::div_mod::lemma_fundamental_div_mod(y - 1, k);
    let q = (y - 1) / k;
    let r = (y - 1) % k;
    assert(k * q == q * k) by (nonlinear_arith);
    if r + 1 == k {
        assert(y == (q + 1) * k + 0) by (nonlinear_arith)
            requires
                y == q * k + r + 1 && r + 1 == k,
        ;
        vstd::arithmetic::div_mod::lemma_fundamental_div_mod_converse(y, k, q + 1, 0);
    } else {
        vstd::arithmetic::div_mod::lemma_fundamental_div_mod_converse(y, k, q, r + 1);
    }
}

/// Year `y` contributes 366 days when it is a leap year, else 365.
proof fn lemma_year_length(y: int)
    ensures
        days_before_year(y + 1) - days_before_year(y) == if is_leap(y) {
            366int
        } else {
            365int
        },
{
    lemma_div_step(y, 4);
    lemma_div_step(y, 100);
    lemma_div_step(y, 400);
    if y % 400 == 0 {
        vstd::arithmetic::div_mod::lemma_fundamental_div_mod(y, 400);
        vstd::arithmetic::div_mod::lemma_fundamental_div_mod_converse(y, 100, 4 * (y / 400), 0);
    }
    if y % 100 == 0 {
        vstd::arithmetic::div_mod::lemma_fundamental_div_mod(y, 100);
        vstd::arithmetic::div_mod::lemma_fundamental_div_mod_converse(y, 4, 25 * (y / 100), 0);
    }
}

/// Date offsets count calendar days: the day after any valid date has an
/// offset one greater, so the binary date offset is exactly the signed
/// calendar day count since 2000-01-01.
pub proof fn lemma_date_offset_succ(d: Date)
    requires
        d.valid(),
    ensures
        date_offset(next_date(d)) == date_offset(d) + 1,
{
    let y = d.year as int;
    let m = d.month as int;
    if (d.day as int) < days_in_month(y, m) {
    } else if d.month < 12 {
        assert(days_before_month(y, m + 1) == days_before_month(y, m) + days_in_month(y, m));
    } else {
        lemma_year_length(y);
        assert(days_before_month(y, 12) == if is_leap(y) {
            335int
        } else {
            334int
        }) by {
            reveal_with_fuel(days_before_month, 13);
        }
    }
}

/// The microsecond after `t`: the next count within the day, or midnight of
/// the next date.
pub open spec fn next_micro(t: Timestamp) -> Timestamp {
    if t.micro + 1 < 1_000_000 {
        Timestamp { micro: (t.micro + 1) as u32, ..t }
    } else if t.second + 1 < 60 {
        Timestamp { second: (t.second + 1) as u8, micro: 0, ..t }
    } else if t.minute + 1 < 60 {
        Timestamp { minute: (t.minute + 1) as u8, second: 0, micro: 0, ..t }
    } else if t.hour + 1 < 24 {
        Timestamp { hour: (t.hour + 1) as u8, minute: 0, second: 0, micro: 0, ..t }
    } else {
        Timestamp { date: next_date(t.date), hour: 0, minute: 0, second: 0, micro: 0 }
    }
}

/// Timestamp offsets count microseconds: the microsecond after any valid
/// timestamp has an offset one greater, so the binary timestamp offset is
/// exactly the signed microsecond count since 2000-01-01T00:00:00.
pub proof fn lemma_timestamp_offset_succ(t: Timestamp)
    requires
        t.valid(),
    ensures
        timestamp_offset(next_micro(t)) == timestamp_offset(t) + 1,
{
    if t.micro + 1 == 1_000_000 && t.second + 1 == 60 && t.minute + 1 == 60 && t.hour + 1
        == 24 {
        lemma_date_offset_succ(t.date);
        assert((date_offset(t.date) + 1) * 86_400_000_000 == date_offset(t.date)
            * 86_400_000_000 + 86_400_000_000) by (nonlinear_arith);
    }
}

/// The two ASCII digits of `n`, zero padded.
pub open spec fn two_digits(n: int) -> Seq<u8> {
    seq![(48 + n / 10) as u8, (48 + n % 10) as u8]
}

/// The four ASCII digits of `n`, zero padded.
pub open spec fn four_digits(n: int) -> Seq<u8> {
    two_digits(n / 100) + two_digits(n % 100)
}

/// The three ASCII digits of `n`, zero padded.
pub open spec fn three_digits(n: int) -> Seq<u8> {
    seq![(48 + n / 100) as u8] + two_digits(n % 100)
}

/// The six ASCII digits of `n`, zero padded.
pub open spec fn six_digits(n: int) -> Seq<u8> {
    three_digits(n / 1000) + three_digits(n % 1000)
}

/// ISO-8601 text of a date: `YYYY-MM-DD`.
pub open spec fn date_text(d: Date) -> Seq<u8> {
    four_digits(d.year as int) + seq![45u8] + two_digits(d.month as int) + seq![45u8]
        + two_digits(d.day as int)
}

/// The fractional-second text of a timestamp: empty for a whole second,
/// otherwise a point and three (whole milliseconds) or six digits.
pub open spec fn fraction_text(micro: int) -> Seq<u8> {
    if micro == 0 {
        Seq::empty()
    } else if micro % 1000 == 0 {
        seq![46u8] + three_digits(micro / 1000)
    } else {
        seq![46u8] + six_digits(micro)
    }
}

/// ISO-8601 text of a timestamp: `YYYY-MM-DD HH:MM:SS` with the fractional
/// part of [`fraction_text`].
pub open spec fn timestamp_text(t: Timestamp) -> Seq<u8> {
    date_text(t.date) + seq![32u8] + two_digits(t.hour as int) + seq![58u8] + two_digits(
        t.minute as int,
    ) + seq![58u8] + two_digits(t.second as int) + fraction_text(t.micro as int)
}

/// Pushes the two zero-padded digits of `n`.
fn push_two_digits(out: &mut Vec<u8>, n: u32)
    requires
        n < 100,
    ensures
        final(out)@ == old(out)@ + two_digits(n as int),
{
    out.push(48 + (n / 10) as u8);
    out.push(48 + (n % 10) as u8);
    proof {
        assert(out@ =~= old(out)@ + two_digits(n as int));
    }
}

/// Builds the ISO-8601 text of a date.
pub fn date_text_bytes(d: &Date) -> (r: Vec<u8>)
    requires
        d.valid(),
    ensures
        r@ == date_text(*d),
        r@.len() == 10,
{
    let y = d.year as u32;
    let mut r: Vec<u8> = Vec::new();
    push_two_digits(&mut r, y / 100);
    push_two_digits(&mut r, y % 100);
    r.push(45);
    push_two_digits(&mut r, d.month as u32);
    r.push(45);
    push_two_digits(&mut r, d.day as u32);
    proof {
        assert(r@ =~= date_text(*d));
    }
    r
}

/// Builds the ISO-8601 text of a timestamp.
pub fn timestamp_text_bytes(t: &Timestamp) -> (r: Vec<u8>)
    requires
        t.valid(),
    ensures
        r@ == timestamp_text(*t),
        r@.len() <= 26,
{
    let mut r = date_text_bytes(&t.date);
    r.push(32);
    push_two_digits(&mut r, t.hour as u32);
    r.push(58);
    push_two_digits(&mut r, t.minute as u32);
    r.push(58);
    push_two_digits(&mut r, t.second as u32);
    if t.micro != 0 {
        r.push(46);
        if t.micro % 1000 == 0 {
            let ms = t.micro / 1000;
            r.push(48 + (ms / 100) as u8);
            push_two_digits(&mut r, ms % 100);
        } else {
            let hi = t.micro / 1000;
            let lo = t.micro % 1000;
            r.push(48 + (hi / 100) as u8);
            push_two_digits(&mut r, hi % 100);
            r.push(48 + (lo / 100) as u8);
            push_two_digits(&mut r, lo % 100);
        }
    }
    proof {
        assert(r@ =~= timestamp_text(*t));
    }
    r
}

} // verus!
