//! Calendar arithmetic over plain values: dates as year/month/day triples,
//! instants as a date plus a second-of-day. A date's position in the proleptic
//! Gregorian calendar is captured by `spec_day_index`, the number of days since
//! January 1 of year 1; weekdays are day indices modulo seven (day zero was a
//! Monday).

use vstd::prelude::*;
use vstd::arithmetic::div_mod::{
    lemma_fundamental_div_mod, lemma_fundamental_div_mod_converse, lemma_div_is_ordered,
    lemma_div_pos_is_pos, lemma_mod_multiples_basic,
};

verus! {

/// Day of the week.
#[derive(Debug, Clone, Copy, PartialEq, Eq, Hash, Structural)]
pub enum Weekday {
    Mon,
    Tue,
    Wed,
    Thu,
    Fri,
    Sat,
    Sun,
}

impl Weekday {
    /// Position in the Monday-first week: Monday is 0, Sunday is 6.
    pub open spec fn spec_index0(self) -> int {
        match self {
            Weekday::Mon => 0,
            Weekday::Tue => 1,
            Weekday::Wed => 2,
            Weekday::Thu => 3,
            Weekday::Fri => 4,
            Weekday::Sat => 5,
            Weekday::Sun => 6,
        }
    }

    /// Number of days counted from Monday (Monday is 0, Sunday is 6).
    pub fn num_days_from_monday(self) -> (i: u8)
        ensures
            i == self.spec_index0(),
    {
        match self {
            Weekday::Mon => 0,
            Weekday::Tue => 1,
            Weekday::Wed => 2,
            Weekday::Thu => 3,
            Weekday::Fri => 4,
            Weekday::Sat => 5,
            Weekday::Sun => 6,
        }
    }

    /// The weekday at Monday-first position `i`, as a spec-level value.
    pub open spec fn spec_from_index0(i: int) -> Weekday {
        if i == 0 {
            Weekday::Mon
        } else if i == 1 {
            Weekday::Tue
        } else if i == 2 {
            Weekday::Wed
        } else if i == 3 {
            Weekday::Thu
        } else if i == 4 {
            Weekday::Fri
        } else if i == 5 {
            Weekday::Sat
        } else {
            Weekday::Sun
        }
    }

    /// The weekday whose Monday-first position is `i`.
    pub fn from_days_from_monday(i: u8) -> (w: Weekday)
        requires
            i < 7,
        ensures
            w.spec_index0() == i,
            w == Weekday::spec_from_index0(i as int),
    {
        if i == 0 {
            Weekday::Mon
        } else if i == 1 {
            Weekday::Tue
        } else if i == 2 {
            Weekday::Wed
        } else if i == 3 {
            Weekday::Thu
        } else if i == 4 {
            Weekday::Fri
        } else if i == 5 {
            Weekday::Sat
        } else {
            Weekday::Sun
        }
    }
}

/// Month of the year.
#[derive(Debug, Clone, Copy, PartialEq, Eq, Hash, Structural)]
pub enum Month {
    January,
    February,
    March,
    April,
    May,
    June,
    July,
    August,
    September,
    October,
    November,
    December,
}

impl Month {
    /// Calendar number of the month: January is 1, December is 12.
    pub open spec fn spec_number(self) -> int {
        match self {
            Month::January => 1,
            Month::February => 2,
            Month::March => 3,
            Month::April => 4,
            Month::May => 5,
            Month::June => 6,
            Month::July => 7,
            Month::August => 8,
            Month::September => 9,
            Month::October => 10,
            Month::November => 11,
            Month::December => 12,
        }
    }

    /// Calendar number of the month: January is 1, December is 12.
    pub fn number(self) -> (n: u8)
        ensures
            n == self.spec_number(),
    {
        match self {
            Month::January => 1,
            Month::February => 2,
            Month::March => 3,
            Month::April => 4,
            Month::May => 5,
            Month::June => 6,
            Month::July => 7,
            Month::August => 8,
            Month::September => 9,
            Month::October => 10,
            Month::November => 11,
            Month::December => 12,
        }
    }

    /// The month with calendar number `n`, as a spec-level value.
    pub open spec fn spec_from_number(n: int) -> Month {
        if n == 1 {
            Month::January
        } else if n == 2 {
            Month::February
        } else if n == 3 {
            Month::March
        } else if n == 4 {
            Month::April
        } else if n == 5 {
            Month::May
        } else if n == 6 {
            Month::June
        } else if n == 7 {
            Month::July
        } else if n == 8 {
            Month::August
        } else if n == 9 {
            Month::September
        } else if n == 10 {
            Month::October
        } else if n == 11 {
            Month::November
        } else {
            Month::December
        }
    }

    /// The month with calendar number `n` (1 through 12), if any.
    pub fn from_number(n: u8) -> (m: Option<Month>)
        ensures
            m is Some <==> 1 <= n <= 12,
            m is Some ==> m->0.spec_number() == n,
            m is Some ==> m->0 == Month::spec_from_number(n as int),
    {
        if n == 1 {
            Some(Month::January)
        } else if n == 2 {
            Some(Month::February)
        } else if n == 3 {
            Some(Month::March)
        } else if n == 4 {
            Some(Month::April)
        } else if n == 5 {
            Some(Month::May)
        } else if n == 6 {
            Some(Month::June)
        } else if n == 7 {
            Some(Month::July)
        } else if n == 8 {
            Some(Month::August)
        } else if n == 9 {
            Some(Month::September)
        } else if n == 10 {
            Some(Month::October)
        } else if n == 11 {
            Some(Month::November)
        } else if n == 12 {
            Some(Month::December)
        } else {
            None
        }
    }
}

/// Smallest year a `Date` may carry.
pub const MIN_YEAR: i32 = 1;

/// Largest year a `Date` may carry.
pub const MAX_YEAR: i32 = 9999;

/// Whether year `y` is a leap year in the Gregorian calendar.
pub open spec fn spec_is_leap_year(y: int) -> bool {
    (y % 4 == 0 && y % 100 != 0) || y % 400 == 0
}

/// Whether year `y` is a leap year in the Gregorian calendar.
pub fn is_leap_year(y: i32) -> (r: bool)
    requires
        MIN_YEAR <= y <= MAX_YEAR,
    ensures
        r == spec_is_leap_year(y as int),
{
    (y % 4 == 0 && y % 100 != 0) || y % 400 == 0
}

/// Number of days in month `m` of year `y`.
pub open spec fn spec_days_in_month(y: int, m: int) -> int {
    if m == 2 {
        if spec_is_leap_year(y) {
            29
        } else {
            28
        }
    } else if m == 4 || m == 6 || m == 9 || m == 11 {
        30
    } else {
        31
    }
}

/// Number of days in month `m` of year `y`.
pub fn days_in_month(y: i32, m: u8) -> (n: u8)
    requires
        MIN_YEAR <= y <= MAX_YEAR,
        1 <= m <= 12,
    ensures
        n == spec_days_in_month(y as int, m as int),
        28 <= n <= 31,
{
    if m == 2 {
        if is_leap_year(y) {
            29
        } else {
            28
        }
    } else if m == 4 || m == 6 || m == 9 || m == 11 {
        30
    } else {
        31
    }
}

/// Number of days of year `y` that fall before month `m`.
pub open spec fn spec_days_before_month(y: int, m: int) -> int {
    let leap: int = if spec_is_leap_year(y) {
        1
    } else {
        0
    };
    if m <= 1 {
        0
    } else if m == 2 {
        31
    } else if m == 3 {
        59 + leap
    } else if m == 4 {
        90 + leap
    } else if m == 5 {
        120 + leap
    } else if m == 6 {
        151 + leap
    } else if m == 7 {
        181 + leap
    } else if m == 8 {
        212 + leap
    } else if m == 9 {
        243 + leap
    } else if m == 10 {
        273 + leap
    } else if m == 11 {
        304 + leap
    } else {
        334 + leap
    }
}

/// Number of days of year `y` that fall before month `m`.
pub fn days_before_month(y: i32, m: u8) -> (n: u16)
    requires
        MIN_YEAR <= y <= MAX_YEAR,
        1 <= m <= 12,
    ensures
        n == spec_days_before_month(y as int, m as int),
{
    let leap: u16 = if is_leap_year(y) {
        1
    } else {
        0
    };
    if m <= 1 {
        0
    } else if m == 2 {
        31
    } else if m == 3 {
        59 + leap
    } else if m == 4 {
        90 + leap
    } else if m == 5 {
        120 + leap
    } else if m == 6 {
        151 + leap
    } else if m == 7 {
        181 + leap
    } else if m == 8 {
        212 + leap
    } else if m == 9 {
        243 + leap
    } else if m == 10 {
        273 + leap
    } else if m == 11 {
        304 + leap
    } else {
        334 + leap
    }
}

/// Number of leap years among years 1 through `n`.
pub open spec fn spec_leap_years_through(n: int) -> int {
    n / 4 - n / 100 + n / 400
}

/// A calendar date in the proleptic Gregorian calendar.
#[derive(Debug, Clone, Copy, PartialEq, Eq, Hash, Structural)]
pub struct Date {
    pub year: i32,
    pub month: u8,
    pub day: u8,
}

impl Date {
    /// A well-formed date names an existing day of an existing month in a
    /// year between `MIN_YEAR` and `MAX_YEAR`.
    pub open spec fn wf(self) -> bool {
        &&& MIN_YEAR <= self.year <= MAX_YEAR
        &&& 1 <= self.month <= 12
        &&& 1 <= self.day <= spec_days_in_month(self.year as int, self.month as int)
    }

    /// Number of days between January 1 of year 1 and this date.
    pub open spec fn spec_day_index(self) -> int {
        365 * (self.year - 1) + spec_leap_years_through(self.year - 1)
            + spec_days_before_month(self.year as int, self.month as int) + self.day - 1
    }

    /// Monday-first weekday position of this date (0 is Monday).
    pub open spec fn spec_weekday_index(self) -> int {
        self.spec_day_index() % 7
    }

    /// Weekday of this date, as a spec-level value.
    pub open spec fn spec_weekday(self) -> Weekday {
        Weekday::spec_from_index0(self.spec_weekday_index())
    }

    /// The date `year-month-day`, if those values name an existing day.
    pub fn new(year: i32, month: u8, day: u8) -> (r: Option<Date>)
        ensures
            r is Some <==> (Date { year, month, day }).wf(),
            r is Some ==> r->0 == (Date { year, month, day }),
    {
        if year < MIN_YEAR || year > MAX_YEAR || month < 1 || month > 12 {
            return None;
        }
        let dim = days_in_month(year, month);
        if day < 1 || day > dim {
            return None;
        }
        Some(Date { year, month, day })
    }

    /// Number of days since January 1 of year 1.
    pub fn day_index(&self) -> (i: i64)
        requires
            self.wf(),
        ensures
            i == self.spec_day_index(),
    {
        proof {
            lemma_day_index_bounds(*self);
        }
        let y: i64 = (self.year - 1) as i64;
        let leaps: i64 = y / 4 - y / 100 + y / 400;
        let dbm: i64 = days_before_month(self.year, self.month) as i64;
        365 * y + leaps + dbm + (self.day as i64) - 1
    }

    /// Weekday of this date.
    pub fn weekday(&self) -> (w: Weekday)
        requires
            self.wf(),
        ensures
            w.spec_index0() == self.spec_weekday_index(),
            w == self.spec_weekday(),
    {
        proof {
            lemma_day_index_bounds(*self);
        }
        let idx: i64 = self.day_index() % 7;
        Weekday::from_days_from_monday(idx as u8)
    }

    /// Number of days in this date's month.
    pub fn days_in_this_month(&self) -> (n: u8)
        requires
            self.wf(),
        ensures
            n == spec_days_in_month(self.year as int, self.month as int),
    {
        days_in_month(self.year, self.month)
    }

    /// The date one day later.
    pub fn next_day(&self) -> (r: Date)
        requires
            self.wf(),
            !(self.year == MAX_YEAR && self.month == 12 && self.day == 31),
        ensures
            r.wf(),
            r.spec_day_index() == self.spec_day_index() + 1,
    {
        let dim = days_in_month(self.year, self.month);
        if self.day < dim {
            Date { year: self.year, month: self.month, day: self.day + 1 }
        } else if self.month < 12 {
            Date { year: self.year, month: self.month + 1, day: 1 }
        } else {
            let r = Date { year: self.year + 1, month: 1, day: 1 };
            proof {
                lemma_leap_years_step(self.year as int);
            }
            r
        }
    }

    /// The date one day earlier.
    pub fn prev_day(&self) -> (r: Date)
        requires
            self.wf(),
            !(self.year == MIN_YEAR && self.month == 1 && self.day == 1),
        ensures
            r.wf(),
            r.spec_day_index() == self.spec_day_index() - 1,
    {
        if self.day > 1 {
            Date { year: self.year, month: self.month, day: self.day - 1 }
        } else if self.month > 1 {
            let pm: u8 = self.month - 1;
            let dim = days_in_month(self.year, pm);
            Date { year: self.year, month: pm, day: dim }
        } else {
            let py: i32 = self.year - 1;
            let r = Date { year: py, month: 12, day: 31 };
            proof {
                lemma_leap_years_step(self.year as int);
            }
            r
        }
    }
}

/// Number of seconds in a day.
pub const SECS_PER_DAY: u32 = 86400;

/// A time of day with second precision.
#[derive(Debug, Clone, Copy, PartialEq, Eq, Hash, Structural)]
pub struct TimeOfDay {
    pub sec: u32,
}

impl TimeOfDay {
    /// A well-formed time of day holds fewer seconds than a day has.
    pub open spec fn wf(self) -> bool {
        self.sec < 86400
    }

    /// The time `h:m:s`, if those values name a time of day.
    pub fn from_hms(h: u32, m: u32, s: u32) -> (r: Option<TimeOfDay>)
        ensures
            r is Some <==> (h < 24 && m < 60 && s < 60),
            r is Some ==> r->0.sec == h * 3600 + m * 60 + s,
            r is Some ==> r->0.wf(),
    {
        if h < 24 && m < 60 && s < 60 {
            Some(TimeOfDay { sec: h * 3600 + m * 60 + s })
        } else {
            None
        }
    }
}

/// An instant: a calendar date together with a second of that day. Instants
/// are already normalized; offsets and time zones are a caller's concern.
#[derive(Debug, Clone, Copy, PartialEq, Eq, Hash, Structural)]
pub struct Timestamp {
    pub date: Date,
    pub sec: u32,
}

impl Timestamp {
    /// A well-formed instant carries a well-formed date and a second within
    /// the day.
    pub open spec fn wf(self) -> bool {
        self.date.wf() && self.sec < 86400
    }

    /// Seconds between January 1 of year 1 at midnight and this instant.
    pub open spec fn spec_epoch_sec(self) -> int {
        self.date.spec_day_index() * 86400 + self.sec
    }

    /// The instant `year-month-day h:m:s`, if those values name one.
    pub fn from_ymd_hms(year: i32, month: u8, day: u8, h: u32, m: u32, s: u32) -> (r: Option<
        Timestamp,
    >)
        ensures
            r is Some <==> ((Date { year, month, day }).wf() && h < 24 && m < 60 && s < 60),
            r is Some ==> r->0 == (Timestamp {
                date: Date { year, month, day },
                sec: (h * 3600 + m * 60 + s) as u32,
            }),
            r is Some ==> r->0.wf(),
    {
        match (Date::new(year, month, day), TimeOfDay::from_hms(h, m, s)) {
            (Some(date), Some(tod)) => Some(Timestamp { date, sec: tod.sec }),
            _ => None,
        }
    }

    /// The instant at second `tod` of day `date`.
    pub fn at(date: Date, tod: TimeOfDay) -> (r: Timestamp)
        requires
            date.wf(),
            tod.wf(),
        ensures
            r == (Timestamp { date, sec: tod.sec }),
            r.wf(),
    {
        Timestamp { date, sec: tod.sec }
    }

    /// Seconds since January 1 of year 1 at midnight.
    pub fn epoch_sec(&self) -> (s: i64)
        requires
            self.wf(),
        ensures
            s == self.spec_epoch_sec(),
            0 <= s < 320_000_000_000,
    {
        proof {
            lemma_day_index_bounds(self.date);
        }
        self.date.day_index() * 86400 + (self.sec as i64)
    }

    /// Whether this instant is no later than `other`.
    pub fn le(&self, other: &Timestamp) -> (r: bool)
        requires
            self.wf(),
            other.wf(),
        ensures
            r == (self.spec_epoch_sec() <= other.spec_epoch_sec()),
    {
        self.epoch_sec() <= other.epoch_sec()
    }

    /// Whether this instant is strictly earlier than `other`.
    pub fn lt(&self, other: &Timestamp) -> (r: bool)
        requires
            self.wf(),
            other.wf(),
        ensures
            r == (self.spec_epoch_sec() < other.spec_epoch_sec()),
    {
        self.epoch_sec() < other.epoch_sec()
    }

    /// Whole days between two instants, ignoring direction: the absolute
    /// difference in seconds, divided by the length of a day, rounded down.
    pub open spec fn spec_days_between(self, other: Timestamp) -> int {
        abs_int(self.spec_epoch_sec() - other.spec_epoch_sec()) / 86400
    }

    /// Whole days between two instants, ignoring direction.
    pub fn days_between(&self, other: &Timestamp) -> (d: i64)
        requires
            self.wf(),
            other.wf(),
        ensures
            d == self.spec_days_between(*other),
            0 <= d < 4_000_000,
    {
        let a: i64 = self.epoch_sec();
        let b: i64 = other.epoch_sec();
        let diff: i64 = if a >= b {
            a - b
        } else {
            b - a
        };
        proof {
            lemma_div_is_ordered(0, diff as int, 86400);
            lemma_div_is_ordered(diff as int, 640_000_000_000, 86400);
        }
        diff / 86400
    }
}

/// The absolute value of `x`.
pub open spec fn abs_int(x: int) -> int {
    if x >= 0 {
        x
    } else {
        -x
    }
}

/// The count of leap years grows by one exactly at a leap year: the leap years
/// through `y` are those through `y - 1`, plus `y` itself if it is one.
pub proof fn lemma_leap_years_step(y: int)
    requires
        y >= 1,
    ensures
        spec_leap_years_through(y) == spec_leap_years_through(y - 1) + if spec_is_leap_year(y) {
            1int
        } else {
            0int
        },
{
    lemma_div_step(y, 4);
    lemma_div_step(y, 100);
    lemma_div_step(y, 400);
    if y % 400 == 0 {
        lemma_mod_divisor_multiple(y, 4, 100);
        lemma_mod_divisor_multiple(y, 100, 4);
    }
    if y % 100 == 0 {
        lemma_mod_divisor_multiple(y, 4, 25);
    }
}

/// Dividing `n` rather than `n - 1` by `d` adds one exactly when `d` divides
/// `n`.
pub proof fn lemma_div_step(n: int, d: int)
    requires
        n >= 1,
        d >= 1,
    ensures
        n / d == (n - 1) / d + if n % d == 0 {
            1int
        } else {
            0int
        },
{
    lemma_fundamental_div_mod(n, d);
    let q = n / d;
    let r = n % d;
    if r == 0 {
        assert(n - 1 == (q - 1) * d + (d - 1)) by (nonlinear_arith)
            requires
                n == d * q + r,
                r == 0,
        ;
        lemma_fundamental_div_mod_converse(n - 1, d, q - 1, d - 1);
    } else {
        assert(n - 1 == q * d + (r - 1)) by (nonlinear_arith)
            requires
                n == d * q + r,
        ;
        lemma_fundamental_div_mod_converse(n - 1, d, q, r - 1);
    }
}

/// If `a * b` divides `n` evenly, then so does `a`.
pub proof fn lemma_mod_divisor_multiple(n: int, a: int, b: int)
    requires
        a >= 1,
        b >= 1,
        n % (a * b) == 0,
    ensures
        n % a == 0,
{
    assert(a * b >= 1) by (nonlinear_arith)
        requires
            a >= 1,
            b >= 1,
    ;
    lemma_fundamental_div_mod(n, a * b);
    let k = b * (n / (a * b));
    assert(n == k * a) by (nonlinear_arith)
        requires
            n == (a * b) * (n / (a * b)) + n % (a * b),
            n % (a * b) == 0,
            k == b * (n / (a * b)),
    ;
    lemma_mod_multiples_basic(k, a);
}

/// Counting leap years never decreases: there are at least as many through
/// `b` as through `a` when `a <= b`.
pub proof fn lemma_leap_years_monotone(a: int, b: int)
    requires
        0 <= a <= b,
    ensures
        spec_leap_years_through(a) <= spec_leap_years_through(b),
    decreases b - a,
{
    if a < b {
        lemma_leap_years_step(b);
        lemma_leap_years_monotone(a, b - 1);
    }
}

/// Day indices respect calendar order: an earlier date (by year, then month,
/// then day) has a strictly smaller day index.
pub proof fn lemma_day_index_strictly_monotone(d1: Date, d2: Date)
    requires
        d1.wf(),
        d2.wf(),
        (d1.year < d2.year) || (d1.year == d2.year && d1.month < d2.month) || (d1.year == d2.year
            && d1.month == d2.month && d1.day < d2.day),
    ensures
        d1.spec_day_index() < d2.spec_day_index(),
{
    if d1.year == d2.year {
        // Within one year the closed form of `spec_days_before_month` settles
        // every month pair directly.
    } else {
        let y1 = d1.year as int;
        let y2 = d2.year as int;
        lemma_leap_years_monotone(y1, y2 - 1);
        lemma_leap_years_step(y1);
        assert(spec_leap_years_through(y2 - 1) >= spec_leap_years_through(y1 - 1)
            + if spec_is_leap_year(y1) {
            1int
        } else {
            0int
        });
    }
}

/// Two distinct well-formed dates have distinct day indices.
pub proof fn lemma_day_index_injective(d1: Date, d2: Date)
    requires
        d1.wf(),
        d2.wf(),
        d1.spec_day_index() == d2.spec_day_index(),
    ensures
        d1 == d2,
{
    if d1 != d2 {
        if d1.year < d2.year || (d1.year == d2.year && d1.month < d2.month) || (d1.year == d2.year
            && d1.month == d2.month && d1.day < d2.day) {
            lemma_day_index_strictly_monotone(d1, d2);
        } else {
            lemma_day_index_strictly_monotone(d2, d1);
        }
    }
}

/// Two well-formed instants at the same second since the epoch are the same
/// instant.
pub proof fn lemma_epoch_sec_injective(t1: Timestamp, t2: Timestamp)
    requires
        t1.wf(),
        t2.wf(),
        t1.spec_epoch_sec() == t2.spec_epoch_sec(),
    ensures
        t1 == t2,
{
    let i1 = t1.date.spec_day_index();
    let i2 = t2.date.spec_day_index();
    assert((i1 - i2) * 86400 == t2.sec - t1.sec) by (nonlinear_arith)
        requires
            i1 * 86400 + t1.sec == i2 * 86400 + t2.sec,
    ;
    if i1 != i2 {
        assert(i1 - i2 >= 1 || i1 - i2 <= -1);
        assert((i1 - i2) * 86400 >= 86400 || (i1 - i2) * 86400 <= -86400) by (nonlinear_arith)
            requires
                i1 - i2 >= 1 || i1 - i2 <= -1,
        ;
    }
    lemma_day_index_injective(t1.date, t2.date);
}

/// A well-formed date's day index lies between 0 and 3 700 000.
pub proof fn lemma_day_index_bounds(d: Date)
    requires
        d.wf(),
    ensures
        0 <= d.spec_day_index() < 3_700_000,
{
    let n = d.year - 1;
    lemma_div_pos_is_pos(n as int, 4);
    lemma_div_pos_is_pos(n as int, 100);
    lemma_div_pos_is_pos(n as int, 400);
    lemma_div_is_ordered(n as int, 9998, 4);
    assert(n / 100 * 4 <= n / 100 * 100) by (nonlinear_arith)
        requires
            n / 100 >= 0,
    ;
    lemma_div_is_ordered_by_denominator_local(n as int);
}

proof fn lemma_div_is_ordered_by_denominator_local(n: int)
    requires
        n >= 0,
    ensures
        n / 400 <= n / 100,
        n / 100 <= n / 4,
{
    vstd::arithmetic::div_mod::lemma_div_is_ordered_by_denominator(n, 100, 400);
    vstd::arithmetic::div_mod::lemma_div_is_ordered_by_denominator(n, 4, 100);
}

} // verus!
