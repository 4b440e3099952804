//! Calendar dates, the month enumeration, and validity of (year, month, day)
//! triples under the Gregorian rules.

use vstd::prelude::*;
use crate::errors::Error;

verus! {

/// Months of the year.
#[derive(Clone, Copy, PartialEq, Eq, Structural, Debug)]
pub enum Month {
    January,
    February,
    March,
    April,
    May,
    June,
    July,
    August,
    September,
    October,
    November,
    December,
}

/// The 1-based number of a month, January being 1.
pub open spec fn month_code(m: Month) -> int {
    match m {
        Month::January => 1,
        Month::February => 2,
        Month::March => 3,
        Month::April => 4,
        Month::May => 5,
        Month::June => 6,
        Month::July => 7,
        Month::August => 8,
        Month::September => 9,
        Month::October => 10,
        Month::November => 11,
        Month::December => 12,
    }
}

impl Month {
    /// The 1-based number of this month, January being 1.
    pub fn code(&self) -> (r: u8)
        ensures
            r as int == month_code(*self),
    {
        match self {
            Month::January => 1,
            Month::February => 2,
            Month::March => 3,
            Month::April => 4,
            Month::May => 5,
            Month::June => 6,
            Month::July => 7,
            Month::August => 8,
            Month::September => 9,
            Month::October => 10,
            Month::November => 11,
            Month::December => 12,
        }
    }

    /// The month with the given 1-based number, if there is one.
    pub fn from_code(c: u8) -> (r: Option<Month>)
        ensures
            1 <= c <= 12 ==> (r matches Some(m) && month_code(m) == c as int),
            !(1 <= c <= 12) ==> r is None,
    {
        match c {
            1 => Some(Month::January),
            2 => Some(Month::February),
            3 => Some(Month::March),
            4 => Some(Month::April),
            5 => Some(Month::May),
            6 => Some(Month::June),
            7 => Some(Month::July),
            8 => Some(Month::August),
            9 => Some(Month::September),
            10 => Some(Month::October),
            11 => Some(Month::November),
            12 => Some(Month::December),
            _ => None,
        }
    }
}

/// The month carrying the given 1-based number, for numbers 1 to 12.
pub open spec fn month_from_code(c: int) -> Month {
    if c == 1 { Month::January }
    else if c == 2 { Month::February }
    else if c == 3 { Month::March }
    else if c == 4 { Month::April }
    else if c == 5 { Month::May }
    else if c == 6 { Month::June }
    else if c == 7 { Month::July }
    else if c == 8 { Month::August }
    else if c == 9 { Month::September }
    else if c == 10 { Month::October }
    else if c == 11 { Month::November }
    else { Month::December }
}

/// Whether a year is a leap year under the Gregorian rules.
pub open spec fn is_leap_year(y: int) -> bool {
    (y % 4 == 0 && y % 100 != 0) || y % 400 == 0
}

/// How many days the given month of the given year has.
pub open spec fn days_in_month(y: int, m: int) -> int {
    if m == 2 {
        if is_leap_year(y) { 29 } else { 28 }
    } else if m == 4 || m == 6 || m == 9 || m == 11 {
        30
    } else {
        31
    }
}

/// Whether (year, month, day) names a real calendar date that the wire
/// format can carry: the year written with four digits, the month and the
/// day within their calendar ranges.
pub open spec fn valid_date(y: int, m: int, d: int) -> bool {
    &&& 0 <= y <= 9999
    &&& 1 <= m <= 12
    &&& 1 <= d <= days_in_month(y, m)
}

/// Whether a year is a leap year under the Gregorian rules.
pub fn is_leap(year: i32) -> (r: bool)
    requires
        year >= 0,
    ensures
        r == is_leap_year(year as int),
{
    (year % 4 == 0 && year % 100 != 0) || year % 400 == 0
}

/// How many days the given month of the given year has.
pub fn month_length(year: i32, month: u8) -> (r: u8)
    requires
        year >= 0,
    ensures
        r as int == days_in_month(year as int, month as int),
{
    if month == 2 {
        if is_leap(year) { 29 } else { 28 }
    } else if month == 4 || month == 6 || month == 9 || month == 11 {
        30
    } else {
        31
    }
}

/// How many days the given year has.
pub open spec fn days_in_year(y: int) -> int {
    if is_leap_year(y) { 366 } else { 365 }
}

/// How many days lie in the years before year `y`, counting from year 0.
pub open spec fn days_before_year(y: int) -> int
    decreases y,
{
    if y <= 0 { 0 } else { days_before_year(y - 1) + days_in_year(y - 1) }
}

/// How many days of year `y` lie in the months before month `m`.
pub open spec fn days_before_month(y: int, m: int) -> int
    decreases m,
{
    if m <= 1 { 0 } else { days_before_month(y, m - 1) + days_in_month(y, m - 1) }
}

/// The position of a date in the calendar, in days: day 0 is the first of
/// January of year 0, and each later date is one higher per day.
pub open spec fn day_number(y: int, m: int, d: int) -> int {
    days_before_year(y) + days_before_month(y, m) + (d - 1)
}

/// The days of the months of one year sum to the length of that year.
pub proof fn lemma_months_cover_year(y: int)
    ensures
        days_before_month(y, 13) == days_in_year(y),
{
    reveal_with_fuel(days_before_month, 13);
}

/// Within one year, a later month begins no earlier.
pub proof fn lemma_days_before_month_le(y: int, m1: int, m2: int)
    requires
        m1 <= m2,
    ensures
        days_before_month(y, m1) <= days_before_month(y, m2),
    decreases m2 - m1,
{
    if m1 < m2 {
        lemma_days_before_month_le(y, m1, m2 - 1);
    }
}

/// Every day of a valid month lies inside its year.
pub proof fn lemma_month_within_year(y: int, m: int)
    requires
        1 <= m <= 12,
    ensures
        days_before_month(y, m) + days_in_month(y, m) <= days_in_year(y),
{
    lemma_days_before_month_le(y, m + 1, 13);
    lemma_months_cover_year(y);
}

/// A later year begins no earlier, and at least 365 days per year apart.
pub proof fn lemma_days_before_year_le(y1: int, y2: int)
    requires
        0 <= y1 <= y2,
    ensures
        days_before_year(y1) + 365 * (y2 - y1) <= days_before_year(y2),
    decreases y2 - y1,
{
    if y1 < y2 {
        lemma_days_before_year_le(y1, y2 - 1);
    }
}

/// The day number of a valid date lies within its year's days.
pub proof fn lemma_day_number_in_year(y: int, m: int, d: int)
    requires
        0 <= y,
        1 <= m <= 12,
        1 <= d <= days_in_month(y, m),
    ensures
        days_before_year(y) <= day_number(y, m, d),
        day_number(y, m, d) < days_before_year(y + 1),
{
    lemma_month_within_year(y, m);
    lemma_days_before_month_le(y, 1, m);
    assert(days_before_year(y + 1) == days_before_year(y) + days_in_year(y));
}

/// Day numbers order valid dates exactly as the (year, month, day)
/// lexicographic order does, and equal day numbers mean equal dates.
pub proof fn lemma_day_number_order(y1: int, m1: int, d1: int, y2: int, m2: int, d2: int)
    requires
        0 <= y1,
        0 <= y2,
        1 <= m1 <= 12,
        1 <= d1 <= days_in_month(y1, m1),
        1 <= m2 <= 12,
        1 <= d2 <= days_in_month(y2, m2),
    ensures
        day_number(y1, m1, d1) < day_number(y2, m2, d2) <==> (
            y1 < y2 || (y1 == y2 && m1 < m2) || (y1 == y2 && m1 == m2 && d1 < d2)
        ),
        day_number(y1, m1, d1) == day_number(y2, m2, d2) <==> (y1 == y2 && m1 == m2 && d1 == d2),
{
    if y1 < y2 {
        lemma_day_number_in_year(y1, m1, d1);
        lemma_day_number_in_year(y2, m2, d2);
        lemma_days_before_year_le(y1 + 1, y2);
    } else if y2 < y1 {
        lemma_day_number_in_year(y1, m1, d1);
        lemma_day_number_in_year(y2, m2, d2);
        lemma_days_before_year_le(y2 + 1, y1);
    } else {
        if m1 < m2 {
            lemma_month_within_year(y1, m1);
            lemma_days_before_month_le(y1, m1 + 1, m2);
        } else if m2 < m1 {
            lemma_month_within_year(y2, m2);
            lemma_days_before_month_le(y2, m2 + 1, m1);
        }
    }
}

/// No valid date lies beyond the last day of year 9999.
pub proof fn lemma_day_number_max(y: int, m: int, d: int)
    requires
        valid_date(y, m, d),
    ensures
        day_number(y, m, d) <= day_number(9999, 12, 31),
{
    lemma_day_number_order(y, m, d, 9999, 12, 31);
}

/// A calendar date: a (year, month, day) triple.
#[derive(Clone, Copy, PartialEq, Eq, Structural, Debug)]
pub struct TDate {
    /// The day of the month, 1-based.
    pub day: u8,
    /// The month.
    pub month: Month,
    /// The year, written with four digits on the wire.
    pub year: i32,
}

impl TDate {
    /// Whether this value names a real calendar date.
    pub open spec fn valid(self) -> bool {
        valid_date(self.year as int, month_code(self.month), self.day as int)
    }

    /// Creates a `TDate` from the year, month, and day.
    ///
    /// Succeeds exactly when the triple names a real calendar date.
    pub fn from_calendar_date(year: i32, month: Month, day: u8) -> (r: Result<TDate, Error>)
        ensures
            valid_date(year as int, month_code(month), day as int) ==> (
                r matches Ok(d) && d == (TDate { day, month, year })
            ),
            !valid_date(year as int, month_code(month), day as int) ==> (
                r matches Err(e) && e == Error::InvalidDate
            ),
    {
        if 0 <= year && year <= 9999 && 1 <= day && day <= month_length(year, month.code()) {
            Ok(TDate { day, month, year })
        } else {
            Err(Error::InvalidDate)
        }
    }
}

impl TDate {
    /// The position of this date in the calendar, in days.
    pub open spec fn number(self) -> int {
        day_number(self.year as int, month_code(self.month), self.day as int)
    }

    /// Whether this is the last date the wire format can carry.
    pub open spec fn is_last(self) -> bool {
        self.year == 9999 && self.month == Month::December && self.day == 31
    }

    /// The date one day later, with calendar-correct rollover at month and
    /// year boundaries.
    pub fn next_day(self) -> (r: TDate)
        requires
            self.valid(),
            !self.is_last(),
        ensures
            r.valid(),
            r.number() == self.number() + 1,
    {
        let m: u8 = self.month.code();
        if self.day < month_length(self.year, m) {
            TDate { day: self.day + 1, ..self }
        } else if m < 12 {
            let next_month = Month::from_code(m + 1).unwrap();
            proof {
                assert(days_before_month(self.year as int, m + 1 as int)
                    == days_before_month(self.year as int, m as int)
                        + days_in_month(self.year as int, m as int));
            }
            TDate { day: 1, month: next_month, year: self.year }
        } else {
            proof {
                lemma_months_cover_year(self.year as int);
                assert(days_before_year(self.year + 1 as int)
                    == days_before_year(self.year as int) + days_in_year(self.year as int));
            }
            TDate { day: 1, month: Month::January, year: self.year + 1 }
        }
    }

    /// Whether this date lies strictly before `other` in the calendar.
    pub fn precedes(self, other: TDate) -> (r: bool)
        requires
            self.valid(),
            other.valid(),
        ensures
            r == (self.number() < other.number()),
    {
        proof {
            lemma_day_number_order(
                self.year as int, month_code(self.month), self.day as int,
                other.year as int, month_code(other.month), other.day as int,
            );
        }
        self.year < other.year
            || (self.year == other.year && self.month.code() < other.month.code())
            || (self.year == other.year && self.month.code() == other.month.code()
                && self.day < other.day)
    }
}

/// A collection of calendar dates, each of them valid, without duplicates.
#[derive(Clone, Debug)]
pub struct DateRange {
    /// The dates, in the order they are queried.
    pub dates: Vec<TDate>,
}

impl DateRange {
    /// Whether every held date is valid and none occurs twice.
    pub open spec fn wf(self) -> bool {
        &&& forall |i: int| 0 <= i < self.dates@.len() ==> (#[trigger] self.dates@[i]).valid()
        &&& forall |i: int, j: int|
                0 <= i < j < self.dates@.len() ==> self.dates@[i] != self.dates@[j]
    }

    /// Generates a `DateRange` holding every date from `start` to `end`
    /// inclusive, in ascending calendar order; empty when `end` lies before
    /// `start`. Fails exactly when one of the two endpoints is not a real
    /// calendar date.
    pub fn new(start: TDate, end: TDate) -> (r: Result<DateRange, Error>)
        ensures
            !(start.valid() && end.valid()) ==> (r matches Err(e) && e == Error::InvalidDate),
            start.valid() && end.valid() ==> (r matches Ok(dr) && {
                &&& dr.wf()
                &&& start.number() <= end.number() ==> dr.dates@.len() == end.number() - start.number() + 1
                &&& end.number() < start.number() ==> dr.dates@.len() == 0
                &&& forall |i: int| 0 <= i < dr.dates@.len() ==>
                        (#[trigger] dr.dates@[i]).number() == start.number() + i
                &&& dr.dates@.len() > 0 ==> dr.dates@[0] == start
                    && dr.dates@.last() == end
            }),
    {
        if TDate::from_calendar_date(start.year, start.month, start.day).is_err()
            || TDate::from_calendar_date(end.year, end.month, end.day).is_err() {
            return Err(Error::InvalidDate);
        }
        let mut dates: Vec<TDate> = Vec::new();
        if end.precedes(start) {
            proof {
                lemma_range_distinct(dates@, start.number());
            }
            return Ok(DateRange { dates });
        }
        let mut cur: TDate = start;
        loop
            invariant_except_break
                start.number() + dates@.len() == cur.number(),
                cur.number() <= end.number(),
            invariant
                start.valid(),
                end.valid(),
                cur.valid(),
                forall |i: int| 0 <= i < dates@.len() ==> (#[trigger] dates@[i]).valid(),
                forall |i: int| 0 <= i < dates@.len() ==>
                    (#[trigger] dates@[i]).number() == start.number() + i,
            ensures
                dates@.len() == end.number() - start.number() + 1,
            decreases end.number() - cur.number(),
        {
            dates.push(cur);
            if !cur.precedes(end) {
                break;
            }
            proof {
                lemma_day_number_max(
                    end.year as int, month_code(end.month), end.day as int);
                lemma_day_number_order(
                    cur.year as int, month_code(cur.month), cur.day as int,
                    9999, 12, 31,
                );
            }
            cur = cur.next_day();
        }
        proof {
            lemma_range_distinct(dates@, start.number());
            lemma_number_orders_dates(dates@[0], start);
            lemma_number_orders_dates(dates@.last(), end);
        }
        Ok(DateRange { dates })
    }

    /// Creates a `DateRange` from a caller-supplied collection of dates,
    /// keeping each date once, in the order of its first occurrence.
    pub fn from_dates(dates: Vec<TDate>) -> (r: DateRange)
        requires
            forall |i: int| 0 <= i < dates@.len() ==> (#[trigger] dates@[i]).valid(),
        ensures
            r.dates@ == dedup_keep_first(dates@),
            r.wf(),
    {
        let ghost all: Seq<TDate> = dates@;
        let mut out: Vec<TDate> = Vec::new();
        let mut i: usize = 0;
        while i < dates.len()
            invariant
                dates@ == all,
                i <= all.len(),
                out@ == dedup_keep_first(all.take(i as int)),
                forall |k: int| 0 <= k < all.len() ==> (#[trigger] all[k]).valid(),
            decreases all.len() - i,
        {
            let d = dates[i];
            proof {
                assert(all.take(i + 1).drop_last() =~= all.take(i as int));
                assert(all.take(i + 1).last() == all[i as int]);
                lemma_dedup_membership(all.take(i as int), d);
            }
            if !vec_contains_date(&out, d) {
                out.push(d);
            }
            i += 1;
        }
        proof {
            assert(all.take(all.len() as int) =~= all);
            lemma_dedup_no_duplicates(all);
            let ds = dedup_keep_first(all);
            assert forall |k: int| 0 <= k < ds.len() implies (#[trigger] ds[k]).valid() by {
                assert(ds.contains(ds[k]));
                lemma_dedup_membership(all, ds[k]);
                let j = choose |j: int| 0 <= j < all.len() && all[j] == ds[k];
                assert(all[j].valid());
            }
            assert(ds.no_duplicates());
        }
        DateRange { dates: out }
    }
}

/// A smaller day number means an earlier calendar date: day numbers order
/// valid dates exactly as year, then month, then day do.
pub proof fn lemma_number_orders_dates(a: TDate, b: TDate)
    requires
        a.valid(),
        b.valid(),
    ensures
        a.number() < b.number() <==> (
            a.year < b.year
            || (a.year == b.year && month_code(a.month) < month_code(b.month))
            || (a.year == b.year && a.month == b.month && a.day < b.day)
        ),
        a.number() == b.number() <==> a == b,
{
    lemma_day_number_order(
        a.year as int, month_code(a.month), a.day as int,
        b.year as int, month_code(b.month), b.day as int,
    );
}

/// The input sequence with every repeated occurrence after the first removed.
pub open spec fn dedup_keep_first<A>(s: Seq<A>) -> Seq<A>
    decreases s.len(),
{
    if s.len() == 0 {
        Seq::empty()
    } else {
        let rest = dedup_keep_first(s.drop_last());
        if s.drop_last().contains(s.last()) { rest } else { rest.push(s.last()) }
    }
}

/// Removing repeats keeps exactly the members of the input.
pub proof fn lemma_dedup_membership<A>(s: Seq<A>, x: A)
    ensures
        dedup_keep_first(s).contains(x) <==> s.contains(x),
    decreases s.len(),
{
    if s.len() > 0 {
        lemma_dedup_membership(s.drop_last(), x);
        assert(s.contains(x) <==> s.drop_last().contains(x) || s.last() == x) by {
            if s.contains(x) {
                let i = choose |i: int| 0 <= i < s.len() && s[i] == x;
                if i < s.len() - 1 {
                    assert(s.drop_last()[i] == x);
                }
            }
            if s.drop_last().contains(x) {
                let i = choose |i: int| 0 <= i < s.drop_last().len() && s.drop_last()[i] == x;
                assert(s[i] == x);
            }
            if s.last() == x {
                assert(s[s.len() - 1] == x);
            }
        }
        let rest = dedup_keep_first(s.drop_last());
        if !s.drop_last().contains(s.last()) {
            assert(rest.push(s.last()).contains(x) <==> rest.contains(x) || s.last() == x) by {
                if rest.contains(x) {
                    let i = choose |i: int| 0 <= i < rest.len() && rest[i] == x;
                    assert(rest.push(s.last())[i] == x);
                }
                assert(rest.push(s.last())[rest.len() as int] == s.last());
                if rest.push(s.last()).contains(x) {
                    let i = choose |i: int|
                        0 <= i < rest.push(s.last()).len() && rest.push(s.last())[i] == x;
                    if i < rest.len() {
                        assert(rest[i] == x);
                    }
                }
            }
        }
    }
}

/// Removing repeats leaves no element twice.
pub proof fn lemma_dedup_no_duplicates<A>(s: Seq<A>)
    ensures
        dedup_keep_first(s).no_duplicates(),
    decreases s.len(),
{
    if s.len() > 0 {
        lemma_dedup_no_duplicates(s.drop_last());
        let rest = dedup_keep_first(s.drop_last());
        if !s.drop_last().contains(s.last()) {
            lemma_dedup_membership(s.drop_last(), s.last());
            assert(!rest.contains(s.last()));
            assert forall |i: int, j: int|
                0 <= i < rest.push(s.last()).len() && 0 <= j < rest.push(s.last()).len() && i != j
                implies rest.push(s.last())[i] != rest.push(s.last())[j] by {
                if i < rest.len() && j < rest.len() {
                    assert(rest[i] == rest.push(s.last())[i]);
                    assert(rest[j] == rest.push(s.last())[j]);
                } else if i < rest.len() {
                    assert(rest.contains(rest[i]));
                } else if j < rest.len() {
                    assert(rest.contains(rest[j]));
                }
            }
        }
    }
}

/// Whether a vector holds the given date.
fn vec_contains_date(v: &Vec<TDate>, d: TDate) -> (r: bool)
    ensures
        r == v@.contains(d),
{
    let mut j: usize = 0;
    while j < v.len()
        invariant
            j <= v@.len(),
            forall |k: int| 0 <= k < j ==> v@[k] != d,
        decreases v@.len() - j,
    {
        if v[j] == d {
            proof {
                assert(v@[j as int] == d);
            }
            return true;
        }
        j += 1;
    }
    false
}

/// Dates whose day numbers count up from a common base are pairwise distinct.
proof fn lemma_range_distinct(s: Seq<TDate>, base: int)
    requires
        forall |i: int| 0 <= i < s.len() ==> (#[trigger] s[i]).number() == base + i,
    ensures
        forall |i: int, j: int| 0 <= i < j < s.len() ==> s[i] != s[j],
{
}

/// Relies on `time::OffsetDateTime::now_local` and the accessors of
/// `time::Date`: when the local offset can be determined, the returned
/// (year, month, day) triple is a real calendar date with the year within
/// four digits of either sign, the month between 1 and 12 and the day
/// between 1 and the month's length.
#[verifier::external_body]
fn now_local_date() -> (r: Option<(i32, u8, u8)>)
    ensures
        r matches Some(t) ==> {
            &&& -9999 <= t.0 <= 9999
            &&& 1 <= t.1 <= 12
            &&& 1 <= t.2
            &&& t.2 as int <= days_in_month(t.0 as int, t.1 as int)
        },
{
    match time::OffsetDateTime::now_local() {
        Ok(now) => {
            let d = now.date();
            Some((d.year(), d.month() as u8, d.day()))
        }
        Err(_) => None,
    }
}

/// Converts a (year, month, day) triple handed back by the clock into a
/// `TDate`: exactly the triple's date when the triple names a real calendar
/// date the wire format can carry, and a clock failure otherwise.
pub fn date_from_parts(y: i32, m: u8, d: u8) -> (r: Result<TDate, Error>)
    ensures
        valid_date(y as int, m as int, d as int) ==> r == Ok::<TDate, Error>(
            TDate { day: d, month: month_from_code(m as int), year: y },
        ),
        !valid_date(y as int, m as int, d as int) ==> r == Err::<TDate, Error>(Error::ClockError),
{
    match Month::from_code(m) {
        Some(month) => {
            proof {
                assert(month == month_from_code(m as int));
            }
            match TDate::from_calendar_date(y, month, d) {
                Ok(date) => Ok(date),
                Err(_) => Err(Error::ClockError),
            }
        }
        None => Err(Error::ClockError),
    }
}

/// The current date in the caller's local time zone: the clock's (year,
/// month, day) triple passed through `date_from_parts`. Fails when the
/// local offset cannot be determined, or when the local date cannot be
/// carried by the wire format.
pub fn current_date() -> (r: Result<TDate, Error>)
    ensures
        r matches Ok(d) ==> d.valid(),
        r matches Err(e) ==> e == Error::ClockError,
{
    match now_local_date() {
        Some((y, m, d)) => date_from_parts(y, m, d),
        None => Err(Error::ClockError),
    }
}

} // verus!
