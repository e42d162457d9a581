//! The date-matching engine: given a validated `Periodicity` and a candidate
//! instant, decides whether the instant satisfies the recurrence filters and
//! whether it lies inside the validity timeframe. The two predicates are
//! independent; a date is active when both hold.

use vstd::prelude::*;
use vstd::arithmetic::div_mod::{
    lemma_add_mod_noop_right, lemma_basic_div, lemma_div_multiples_vanish,
    lemma_fundamental_div_mod, lemma_mod_add_multiples_vanish, lemma_small_mod,
};
use crate::cal::{abs_int, spec_days_in_month, Date, Month, Timestamp, Weekday};
use crate::periodicity::{
    DayConstraint, MonthConstraint, MonthWeekPosition, NthWeekdayOfMonth, Periodicity,
    SpecialPattern, WeekConstraint, YearConstraint,
};

verus! {

// ────────────────────────────────────────────────────────────────────
// The matching relation, as spec functions.
// ────────────────────────────────────────────────────────────────────

/// The anchor that every-N filters count from: the explicit reference date
/// if set, else the timeframe's start, else the candidate instant itself.
pub open spec fn spec_effective_reference(p: Periodicity, date: Timestamp) -> Timestamp {
    if p.reference_date is Some {
        p.reference_date->0
    } else if p.timeframe is Some {
        (p.timeframe->0).0
    } else {
        date
    }
}

/// Whether an nth-weekday pattern matches a date: the weekday agrees, and
/// the date lies in the pattern's week counted from the month's start or
/// end.
pub open spec fn spec_nth_pattern_matches(pat: NthWeekdayOfMonth, d: Date) -> bool {
    &&& pat.weekday == d.spec_weekday()
    &&& match pat.position {
        MonthWeekPosition::FromFirst(n) => (d.day - 1) / 7 == n,
        MonthWeekPosition::FromLast(n) => (spec_days_in_month(d.year as int, d.month as int)
            - d.day) / 7 == n,
    }
}

/// Whether the day filter accepts the instant.
pub open spec fn spec_matches_day_constraint(
    p: Periodicity,
    date: Timestamp,
    c: DayConstraint,
) -> bool {
    match c {
        DayConstraint::EveryDay => true,
        DayConstraint::EveryNDays(n) => date.spec_days_between(spec_effective_reference(p, date))
            % (n as int) == 0,
        DayConstraint::SpecificDaysWeek(weekdays) => weekdays@.contains(date.date.spec_weekday()),
        DayConstraint::SpecificDaysMonthFromFirst(days) => days@.contains(
            (date.date.day - 1) as u8,
        ),
        DayConstraint::SpecificDaysMonthFromLast(days) => days@.contains(
            (spec_days_in_month(date.date.year as int, date.date.month as int)
                - date.date.day) as u8,
        ),
        DayConstraint::SpecificNthWeekdaysMonth(pats) => exists|k: int|
            0 <= k < pats@.len() && spec_nth_pattern_matches(#[trigger] pats@[k], date.date),
    }
}

/// Day index of the start of the `week_start`-anchored week that holds `d`:
/// the last day at or before `d` whose weekday is `week_start`.
pub open spec fn spec_aligned_day(d: Date, week_start: Weekday) -> int {
    d.spec_day_index() - (d.spec_weekday_index() + 7 - week_start.spec_index0()) % 7
}

/// 1-based day of the month of the first occurrence of `week_start` in
/// `d`'s month.
pub open spec fn spec_first_week_start_day(d: Date, week_start: Weekday) -> int {
    let first_wd = (Date { year: d.year, month: d.month, day: 1 }).spec_weekday_index();
    1 + (week_start.spec_index0() + 7 - first_wd) % 7
}

/// 0-indexed week of the month counted from the first occurrence of
/// `week_start`; days before it belong to the previous month and get no
/// week.
pub open spec fn spec_week_of_month_from_first(d: Date, week_start: Weekday) -> Option<int> {
    let first = spec_first_week_start_day(d, week_start);
    if d.day < first {
        None
    } else {
        Some((d.day - first) / 7)
    }
}

/// 1-based day of the month of the last day of the last complete
/// `week_start`-anchored week in `d`'s month.
pub open spec fn spec_last_week_end_day(d: Date, week_start: Weekday) -> int {
    let dim = spec_days_in_month(d.year as int, d.month as int);
    let last_wd = (Date { year: d.year, month: d.month, day: dim as u8 }).spec_weekday_index();
    let week_end = (week_start.spec_index0() + 6) % 7;
    dim - (last_wd + 7 - week_end) % 7
}

/// 0-indexed week of the month counted back from the last complete week;
/// days after it belong to the next month and get no week.
pub open spec fn spec_week_of_month_from_last(d: Date, week_start: Weekday) -> Option<int> {
    let last_end = spec_last_week_end_day(d, week_start);
    if d.day > last_end {
        None
    } else {
        Some((last_end - d.day) / 7)
    }
}

/// Whether the week filter accepts the instant.
pub open spec fn spec_matches_week_constraint(
    p: Periodicity,
    date: Timestamp,
    c: WeekConstraint,
) -> bool {
    match c {
        WeekConstraint::EveryWeek => true,
        WeekConstraint::EveryNWeeks(n) => {
            let r = spec_effective_reference(p, date);
            abs_int(
                spec_aligned_day(date.date, p.week_start) - spec_aligned_day(
                    r.date,
                    p.week_start,
                ),
            ) / 7 % (n as int) == 0
        },
        WeekConstraint::SpecificWeeksOfMonthFromFirst(weeks) => match spec_week_of_month_from_first(
            date.date,
            p.week_start,
        ) {
            Some(w) => weeks@.contains(w as u8),
            None => false,
        },
        WeekConstraint::SpecificWeeksOfMonthFromLast(weeks) => match spec_week_of_month_from_last(
            date.date,
            p.week_start,
        ) {
            Some(w) => weeks@.contains(w as u8),
            None => false,
        },
    }
}

/// Whether the month filter accepts the instant.
pub open spec fn spec_matches_month_constraint(
    p: Periodicity,
    date: Timestamp,
    c: MonthConstraint,
) -> bool {
    match c {
        MonthConstraint::EveryMonth => true,
        MonthConstraint::EveryNMonths(n) => {
            let r = spec_effective_reference(p, date);
            abs_int(
                (date.date.year - r.date.year) * 12 + date.date.month - r.date.month,
            ) % (n as int) == 0
        },
        MonthConstraint::SpecificMonths(months) => months@.contains(
            Month::spec_from_number(date.date.month as int),
        ),
    }
}

/// Whether the year filter accepts the instant.
pub open spec fn spec_matches_year_constraint(
    p: Periodicity,
    date: Timestamp,
    c: YearConstraint,
) -> bool {
    match c {
        YearConstraint::EveryYear => true,
        YearConstraint::EveryNYears(n) => {
            let r = spec_effective_reference(p, date);
            abs_int(date.date.year - r.date.year) % (n as int) == 0
        },
        YearConstraint::SpecificYears(years) => years@.contains(date.date.year),
    }
}

/// Whether the instant satisfies the recurrence: a special pattern matches
/// by membership alone; otherwise every present filter must accept it.
pub open spec fn spec_matches_constraints(p: Periodicity, date: Timestamp) -> bool {
    match p.special_pattern {
        Some(SpecialPattern::Custom(c)) => c.dates@.contains(date),
        Some(SpecialPattern::Unique(u)) => u.date == date,
        None => {
            &&& (p.constraints.day_constraint is Some ==> spec_matches_day_constraint(
                p,
                date,
                p.constraints.day_constraint->0,
            ))
            &&& (p.constraints.week_constraint is Some ==> spec_matches_week_constraint(
                p,
                date,
                p.constraints.week_constraint->0,
            ))
            &&& (p.constraints.month_constraint is Some ==> spec_matches_month_constraint(
                p,
                date,
                p.constraints.month_constraint->0,
            ))
            &&& (p.constraints.year_constraint is Some ==> spec_matches_year_constraint(
                p,
                date,
                p.constraints.year_constraint->0,
            ))
        },
    }
}

/// Whether the instant lies inside the validity timeframe: start inclusive,
/// end exclusive; no timeframe admits every instant.
pub open spec fn spec_is_within_timeframe(p: Periodicity, date: Timestamp) -> bool {
    match p.timeframe {
        Some((start, end)) => start.spec_epoch_sec() <= date.spec_epoch_sec()
            < end.spec_epoch_sec(),
        None => true,
    }
}

impl Periodicity {
    /// What the matcher needs of a specification it is handed: every carried
    /// instant well-formed and every every-N count at least one. Everything
    /// the validator accepts satisfies this.
    pub open spec fn matching_wf(self) -> bool {
        &&& self.dates_wf()
        &&& (self.constraints.day_constraint matches Some(DayConstraint::EveryNDays(n)) ==> n
            >= 1)
        &&& (self.constraints.week_constraint matches Some(WeekConstraint::EveryNWeeks(n)) ==> n
            >= 1)
        &&& (self.constraints.month_constraint matches Some(MonthConstraint::EveryNMonths(n))
            ==> n >= 1)
        &&& (self.constraints.year_constraint matches Some(YearConstraint::EveryNYears(n)) ==> n
            >= 1)
    }
}

// ────────────────────────────────────────────────────────────────────
// Membership scans.
// ────────────────────────────────────────────────────────────────────

/// Whether the list holds the weekday.
fn contains_weekday(v: &Vec<Weekday>, x: Weekday) -> (r: bool)
    ensures
        r == v@.contains(x),
{
    let mut i: usize = 0;
    let mut found: bool = false;
    while i < v.len()
        invariant
            0 <= i <= v@.len(),
            found == exists|p: int| 0 <= p < i && v@[p] == x,
        decreases v@.len() - i,
    {
        if v[i] == x {
            found = true;
        }
        i = i + 1;
    }
    found
}

/// Whether the list holds the value.
fn contains_u8(v: &Vec<u8>, x: u8) -> (r: bool)
    ensures
        r == v@.contains(x),
{
    let mut i: usize = 0;
    let mut found: bool = false;
    while i < v.len()
        invariant
            0 <= i <= v@.len(),
            found == exists|p: int| 0 <= p < i && v@[p] == x,
        decreases v@.len() - i,
    {
        if v[i] == x {
            found = true;
        }
        i = i + 1;
    }
    found
}

/// Whether the list holds the month.
fn contains_month(v: &Vec<Month>, x: Month) -> (r: bool)
    ensures
        r == v@.contains(x),
{
    let mut i: usize = 0;
    let mut found: bool = false;
    while i < v.len()
        invariant
            0 <= i <= v@.len(),
            found == exists|p: int| 0 <= p < i && v@[p] == x,
        decreases v@.len() - i,
    {
        if v[i] == x {
            found = true;
        }
        i = i + 1;
    }
    found
}

/// Whether the list holds the year.
fn contains_i32(v: &Vec<i32>, x: i32) -> (r: bool)
    ensures
        r == v@.contains(x),
{
    let mut i: usize = 0;
    let mut found: bool = false;
    while i < v.len()
        invariant
            0 <= i <= v@.len(),
            found == exists|p: int| 0 <= p < i && v@[p] == x,
        decreases v@.len() - i,
    {
        if v[i] == x {
            found = true;
        }
        i = i + 1;
    }
    found
}

/// Whether the list holds the instant.
fn contains_timestamp(v: &Vec<Timestamp>, x: Timestamp) -> (r: bool)
    ensures
        r == v@.contains(x),
{
    let mut i: usize = 0;
    let mut found: bool = false;
    while i < v.len()
        invariant
            0 <= i <= v@.len(),
            found == exists|p: int| 0 <= p < i && v@[p] == x,
        decreases v@.len() - i,
    {
        if v[i] == x {
            found = true;
        }
        i = i + 1;
    }
    found
}

// ────────────────────────────────────────────────────────────────────
// The matcher.
// ────────────────────────────────────────────────────────────────────

/// Day index of the start of the `week_start`-anchored week holding `d`.
fn aligned_day_index(d: &Date, week_start: Weekday) -> (i: i64)
    requires
        d.wf(),
    ensures
        i == spec_aligned_day(*d, week_start),
        -7 < i < 3_700_000,
{
    proof {
        crate::cal::lemma_day_index_bounds(*d);
    }
    let wd: u8 = d.weekday().num_days_from_monday();
    let back: u8 = (wd + 7 - week_start.num_days_from_monday()) % 7;
    d.day_index() - (back as i64)
}

impl Periodicity {
    /// The anchor for every-N filters, by priority: the explicit reference
    /// date, the timeframe's start, the candidate instant itself.
    fn get_effective_reference_date(&self, current_date: &Timestamp) -> (r: Timestamp)
        ensures
            r == spec_effective_reference(*self, *current_date),
    {
        if let Some(ref_date) = &self.reference_date {
            return *ref_date;
        }
        if let Some((start, _)) = &self.timeframe {
            return *start;
        }
        *current_date
    }

    /// 0-indexed week of the month of `date`, counted from the month's
    /// first occurrence of `week_start`; `None` for days before it, which
    /// belong to the previous month's last week.
    pub fn week_of_month_from_first(date: &Timestamp, week_start: Weekday) -> (r: Option<u8>)
        requires
            date.wf(),
        ensures
            r is Some <==> spec_week_of_month_from_first(date.date, week_start) is Some,
            r is Some ==> r->0 == spec_week_of_month_from_first(date.date, week_start)->0,
    {
        let d = &date.date;
        let first_date = Date { year: d.year, month: d.month, day: 1 };
        let fw: u8 = first_date.weekday().num_days_from_monday();
        let delta: u8 = (week_start.num_days_from_monday() + 7 - fw) % 7;
        let first: u32 = 1 + delta as u32;
        if (d.day as u32) < first {
            None
        } else {
            Some((((d.day as u32) - first) / 7) as u8)
        }
    }

    /// 0-indexed week of the month of `date`, counted back from the last
    /// complete `week_start`-anchored week; `None` for days after it, which
    /// belong to the next month's first week.
    pub fn week_of_month_from_last(date: &Timestamp, week_start: Weekday) -> (r: Option<u8>)
        requires
            date.wf(),
        ensures
            r is Some <==> spec_week_of_month_from_last(date.date, week_start) is Some,
            r is Some ==> r->0 == spec_week_of_month_from_last(date.date, week_start)->0,
    {
        let d = &date.date;
        let dim: u8 = d.days_in_this_month();
        let last_date = Date { year: d.year, month: d.month, day: dim };
        let lw: u8 = last_date.weekday().num_days_from_monday();
        let week_end: u8 = (week_start.num_days_from_monday() + 6) % 7;
        let back: u8 = (lw + 7 - week_end) % 7;
        let last_we: u32 = dim as u32 - back as u32;
        if (d.day as u32) > last_we {
            None
        } else {
            Some(((last_we - (d.day as u32)) / 7) as u8)
        }
    }

    /// How many `week_start`-anchored weeks begin in the given month.
    pub fn weeks_in_month(year: i32, month: u32, week_start: Weekday) -> (r: u8)
        requires
            crate::cal::MIN_YEAR <= year <= crate::cal::MAX_YEAR,
            1 <= month <= 12,
        ensures
            ({
                let d = Date { year, month: month as u8, day: 1 };
                let first = spec_first_week_start_day(d, week_start);
                let dim = spec_days_in_month(year as int, month as int);
                r == if dim < first {
                    0int
                } else {
                    (dim - first) / 7 + 1
                }
            }),
    {
        let first_date = Date { year, month: month as u8, day: 1 };
        let fw: u8 = first_date.weekday().num_days_from_monday();
        let delta: u8 = (week_start.num_days_from_monday() + 7 - fw) % 7;
        let first: u32 = 1 + delta as u32;
        let dim: u8 = crate::cal::days_in_month(year, month as u8);
        if (dim as u32) < first {
            return 0;
        }
        (((dim as u32 - first) / 7) + 1) as u8
    }

    /// Whether the instant satisfies the recurrence filters. The timeframe
    /// is not consulted; callers check `is_within_timeframe` separately.
    pub fn matches_constraints(&self, date: &Timestamp) -> (r: bool)
        requires
            self.matching_wf(),
            date.wf(),
        ensures
            r == spec_matches_constraints(*self, *date),
    {
        if let Some(pattern) = &self.special_pattern {
            return match pattern {
                SpecialPattern::Custom(custom) => contains_timestamp(&custom.dates, *date),
                SpecialPattern::Unique(unique) => unique.date == *date,
            };
        }
        if let Some(day) = &self.constraints.day_constraint {
            if !self.matches_day_constraint(date, day) {
                return false;
            }
        }
        if let Some(week) = &self.constraints.week_constraint {
            if !self.matches_week_constraint(date, week) {
                return false;
            }
        }
        if let Some(month) = &self.constraints.month_constraint {
            if !self.matches_month_constraint(date, month) {
                return false;
            }
        }
        if let Some(year) = &self.constraints.year_constraint {
            if !self.matches_year_constraint(date, year) {
                return false;
            }
        }
        true
    }

    /// Whether the instant lies inside the timeframe, start inclusive and
    /// end exclusive; with no timeframe set, every instant does.
    pub fn is_within_timeframe(&self, date: &Timestamp) -> (r: bool)
        requires
            self.dates_wf(),
            date.wf(),
        ensures
            r == spec_is_within_timeframe(*self, *date),
    {
        match &self.timeframe {
            Some((start, end)) => start.le(date) && date.lt(end),
            None => true,
        }
    }

    /// Evaluates the day filter.
    fn matches_day_constraint(&self, date: &Timestamp, constraint: &DayConstraint) -> (r: bool)
        requires
            self.matching_wf(),
            date.wf(),
            self.constraints.day_constraint == Some(*constraint),
        ensures
            r == spec_matches_day_constraint(*self, *date, *constraint),
    {
        match constraint {
            DayConstraint::EveryDay => true,
            DayConstraint::EveryNDays(n) => {
                let ref_date = self.get_effective_reference_date(date);
                let days_diff: i64 = date.days_between(&ref_date);
                days_diff % (*n as i64) == 0
            },
            DayConstraint::SpecificDaysWeek(weekdays) => contains_weekday(
                weekdays,
                date.date.weekday(),
            ),
            DayConstraint::SpecificDaysMonthFromFirst(days) => contains_u8(days, date.date.day - 1),
            DayConstraint::SpecificDaysMonthFromLast(days) => {
                let last_day: u8 = date.date.days_in_this_month();
                contains_u8(days, last_day - date.date.day)
            },
            DayConstraint::SpecificNthWeekdaysMonth(patterns) => {
                let weekday = date.date.weekday();
                let day: u8 = date.date.day;
                let last_day: u8 = date.date.days_in_this_month();
                let mut i: usize = 0;
                let mut found: bool = false;
                while i < patterns.len()
                    invariant
                        0 <= i <= patterns@.len(),
                        date.wf(),
                        weekday == date.date.spec_weekday(),
                        day == date.date.day,
                        last_day == spec_days_in_month(
                            date.date.year as int,
                            date.date.month as int,
                        ),
                        day >= 1,
                        day <= last_day,
                        found == exists|k: int|
                            0 <= k < i && spec_nth_pattern_matches(
                                #[trigger] patterns@[k],
                                date.date,
                            ),
                    decreases patterns@.len() - i,
                {
                    let pat = &patterns[i];
                    if pat.weekday == weekday {
                        let hit: bool = match pat.position {
                            MonthWeekPosition::FromFirst(n) => (day - 1) / 7 == n,
                            MonthWeekPosition::FromLast(n) => (last_day - day) / 7 == n,
                        };
                        if hit {
                            found = true;
                        }
                    }
                    i = i + 1;
                }
                found
            },
        }
    }

    /// Evaluates the week filter.
    fn matches_week_constraint(&self, date: &Timestamp, constraint: &WeekConstraint) -> (r: bool)
        requires
            self.matching_wf(),
            date.wf(),
            self.constraints.week_constraint == Some(*constraint),
        ensures
            r == spec_matches_week_constraint(*self, *date, *constraint),
    {
        match constraint {
            WeekConstraint::EveryWeek => true,
            WeekConstraint::EveryNWeeks(n) => {
                let ref_date = self.get_effective_reference_date(date);
                let date_week_start: i64 = aligned_day_index(&date.date, self.week_start);
                let ref_week_start: i64 = aligned_day_index(&ref_date.date, self.week_start);
                let days_diff: i64 = if date_week_start >= ref_week_start {
                    date_week_start - ref_week_start
                } else {
                    ref_week_start - date_week_start
                };
                let weeks_diff: i64 = days_diff / 7;
                weeks_diff % (*n as i64) == 0
            },
            WeekConstraint::SpecificWeeksOfMonthFromFirst(weeks) => {
                match Self::week_of_month_from_first(date, self.week_start) {
                    Some(week_of_month) => contains_u8(weeks, week_of_month),
                    None => false,
                }
            },
            WeekConstraint::SpecificWeeksOfMonthFromLast(weeks) => {
                match Self::week_of_month_from_last(date, self.week_start) {
                    Some(week_of_month) => contains_u8(weeks, week_of_month),
                    None => false,
                }
            },
        }
    }

    /// Evaluates the month filter.
    fn matches_month_constraint(&self, date: &Timestamp, constraint: &MonthConstraint) -> (r:
        bool)
        requires
            self.matching_wf(),
            date.wf(),
            self.constraints.month_constraint == Some(*constraint),
        ensures
            r == spec_matches_month_constraint(*self, *date, *constraint),
    {
        match constraint {
            MonthConstraint::EveryMonth => true,
            MonthConstraint::EveryNMonths(n) => {
                let ref_date = self.get_effective_reference_date(date);
                let years_diff: i64 = date.date.year as i64 - ref_date.date.year as i64;
                let months_diff: i64 = years_diff * 12 + (date.date.month as i64
                    - ref_date.date.month as i64);
                let a: i64 = if months_diff >= 0 {
                    months_diff
                } else {
                    -months_diff
                };
                a % (*n as i64) == 0
            },
            MonthConstraint::SpecificMonths(months) => {
                match Month::from_number(date.date.month) {
                    Some(m) => contains_month(months, m),
                    None => false,
                }
            },
        }
    }

    /// Evaluates the year filter.
    fn matches_year_constraint(&self, date: &Timestamp, constraint: &YearConstraint) -> (r: bool)
        requires
            self.matching_wf(),
            date.wf(),
            self.constraints.year_constraint == Some(*constraint),
        ensures
            r == spec_matches_year_constraint(*self, *date, *constraint),
    {
        match constraint {
            YearConstraint::EveryYear => true,
            YearConstraint::EveryNYears(n) => {
                let ref_date = self.get_effective_reference_date(date);
                let years_diff: i64 = date.date.year as i64 - ref_date.date.year as i64;
                let a: i64 = if years_diff >= 0 {
                    years_diff
                } else {
                    -years_diff
                };
                a % (*n as i64) == 0
            },
            YearConstraint::SpecificYears(years) => contains_i32(years, date.date.year),
        }
    }
}

// ────────────────────────────────────────────────────────────────────
// Laws of the matcher.
// ────────────────────────────────────────────────────────────────────

/// The timeframe is half-open: its start is within it, its end is not, for
/// every timeframe whose start precedes its end.
pub proof fn lemma_timeframe_half_open(p: Periodicity, s: Timestamp, e: Timestamp)
    requires
        p.timeframe == Some((s, e)),
        s.spec_epoch_sec() < e.spec_epoch_sec(),
    ensures
        spec_is_within_timeframe(p, s),
        !spec_is_within_timeframe(p, e),
{
}

/// An every-N-days filter with an explicit reference date matches exactly
/// the instants a whole multiple of N days away from it: with N = 3, the
/// reference and every third day before or after it match, and the days
/// strictly between do not.
pub proof fn lemma_every_n_days_cadence(
    p: Periodicity,
    r: Timestamp,
    d: Timestamp,
    k: int,
    n: u16,
)
    requires
        p.special_pattern is None,
        p.constraints.day_constraint == Some(DayConstraint::EveryNDays(n)),
        p.constraints.week_constraint is None,
        p.constraints.month_constraint is None,
        p.constraints.year_constraint is None,
        p.reference_date == Some(r),
        n >= 1,
        d.spec_epoch_sec() == r.spec_epoch_sec() + k * 86400,
    ensures
        spec_matches_constraints(p, d) <==> abs_int(k) % (n as int) == 0,
{
    assert(spec_effective_reference(p, d) == r);
    assert(abs_int(d.spec_epoch_sec() - r.spec_epoch_sec()) == abs_int(k) * 86400);
    assert(86400 * abs_int(k) == abs_int(k) * 86400);
    lemma_div_multiples_vanish(abs_int(k), 86400);
    assert(d.spec_days_between(r) == abs_int(k));
}

/// Days before the month's first occurrence of the week start never match a
/// weeks-of-month-from-first filter, whatever week numbers it asks for.
pub proof fn lemma_week_of_month_exclusion(p: Periodicity, date: Timestamp, weeks: Vec<u8>)
    requires
        date.wf(),
        (date.date.day as int) < spec_first_week_start_day(date.date, p.week_start),
    ensures
        !spec_matches_week_constraint(
            p,
            date,
            WeekConstraint::SpecificWeeksOfMonthFromFirst(weeks),
        ),
{
}

/// Within one month, a date's weekday index is the first day's weekday
/// index shifted by the days elapsed, modulo seven.
proof fn lemma_weekday_in_month(y: i32, mo: u8, d: int)
    requires
        crate::cal::MIN_YEAR <= y <= crate::cal::MAX_YEAR,
        1 <= mo <= 12,
        1 <= d <= spec_days_in_month(y as int, mo as int),
    ensures
        (Date { year: y, month: mo, day: d as u8 }).spec_weekday_index() == ((Date {
            year: y,
            month: mo,
            day: 1,
        }).spec_weekday_index() + d - 1) % 7,
{
    let d1 = Date { year: y, month: mo, day: 1 };
    let dd = Date { year: y, month: mo, day: d as u8 };
    assert(dd.spec_day_index() == d1.spec_day_index() + d - 1);
    let x = d1.spec_day_index();
    vstd::arithmetic::div_mod::lemma_add_mod_noop(x, d - 1, 7);
    vstd::arithmetic::div_mod::lemma_add_mod_noop(x % 7, d - 1, 7);
    vstd::arithmetic::div_mod::lemma_mod_twice(x, 7);
    assert(dd.spec_weekday_index() == (d1.spec_weekday_index() + d - 1) % 7);
}

/// Integers at most six apart with equal residues modulo seven are equal.
proof fn lemma_mod7_eq_close(a: int, b: int)
    requires
        a % 7 == b % 7,
        -7 < a - b < 7,
    ensures
        a == b,
{
    lemma_fundamental_div_mod(a, 7);
    lemma_fundamental_div_mod(b, 7);
    let qa = a / 7;
    let qb = b / 7;
    assert(a - b == 7 * (qa - qb)) by (nonlinear_arith)
        requires
            a == 7 * qa + a % 7,
            b == 7 * qb + b % 7,
            a % 7 == b % 7,
    ;
    if qa != qb {
        assert(7 * (qa - qb) >= 7 || 7 * (qa - qb) <= -7) by (nonlinear_arith)
            requires
                qa - qb >= 1 || qa - qb <= -1,
        ;
    }
}

/// Distinct Monday-first positions name distinct weekdays.
proof fn lemma_weekday_from_index_injective(i: int, j: int)
    requires
        0 <= i < 7,
        0 <= j < 7,
        Weekday::spec_from_index0(i) == Weekday::spec_from_index0(j),
    ensures
        i == j,
{
}

/// "First `w`" names exactly one date in any month: there is exactly one
/// day that carries weekday `w` and lies in the month's first week of that
/// weekday.
pub proof fn lemma_first_weekday_of_month_unique(y: i32, mo: u8, w: Weekday)
    requires
        crate::cal::MIN_YEAR <= y <= crate::cal::MAX_YEAR,
        1 <= mo <= 12,
    ensures
        exists|d: int|
            1 <= d <= spec_days_in_month(y as int, mo as int) && #[trigger] spec_nth_pattern_matches(
                NthWeekdayOfMonth { weekday: w, position: MonthWeekPosition::FromFirst(0) },
                Date { year: y, month: mo, day: d as u8 },
            ),
        forall|d1: int, d2: int|
            (1 <= d1 <= spec_days_in_month(y as int, mo as int) && #[trigger] spec_nth_pattern_matches(
                NthWeekdayOfMonth { weekday: w, position: MonthWeekPosition::FromFirst(0) },
                Date { year: y, month: mo, day: d1 as u8 },
            ) && 1 <= d2 <= spec_days_in_month(y as int, mo as int) && #[trigger] spec_nth_pattern_matches(
                NthWeekdayOfMonth { weekday: w, position: MonthWeekPosition::FromFirst(0) },
                Date { year: y, month: mo, day: d2 as u8 },
            )) ==> d1 == d2,
{
    let pat = NthWeekdayOfMonth { weekday: w, position: MonthWeekPosition::FromFirst(0) };
    let dim = spec_days_in_month(y as int, mo as int);
    let d1 = Date { year: y, month: mo, day: 1 };
    crate::cal::lemma_day_index_bounds(d1);
    let base = d1.spec_weekday_index();
    let widx = w.spec_index0();
    let delta = (widx - base + 7) % 7;
    lemma_small_mod((widx - base + 7) as nat % 7, 7);
    assert(0 <= delta < 7) by {
        vstd::arithmetic::div_mod::lemma_mod_division_less_than_divisor(widx - base + 7, 7);
        vstd::arithmetic::div_mod::lemma_mod_pos_bound(widx - base + 7, 7);
    }
    let dstar = 1 + delta;
    assert(1 <= dstar <= 7);
    assert(dim >= 28);
    // The candidate day carries weekday w.
    lemma_weekday_in_month(y, mo, dstar);
    let dd = Date { year: y, month: mo, day: dstar as u8 };
    assert(dd.spec_weekday_index() == (base + delta) % 7);
    assert((base + delta) % 7 == widx) by {
        lemma_add_mod_noop_right(base, widx - base + 7, 7);
        assert((base + (widx - base + 7) % 7) % 7 == (base + (widx - base + 7)) % 7);
        assert((widx + 7) % 7 == widx % 7) by {
            lemma_mod_add_multiples_vanish(widx, 7);
        }
        lemma_small_mod(widx as nat, 7);
    }
    assert(dd.spec_weekday() == w) by {
        assert(Weekday::spec_from_index0(widx) == w);
    }
    assert((dstar - 1) / 7 == 0) by {
        lemma_basic_div(dstar - 1, 7);
    }
    assert(spec_nth_pattern_matches(pat, dd));
    assert(1 <= dstar <= dim && spec_nth_pattern_matches(
        pat,
        Date { year: y, month: mo, day: dstar as u8 },
    ));
    // Uniqueness: two such days lie in 1..=7 and share a weekday.
    assert forall|da: int, db: int|
        (1 <= da <= dim && #[trigger] spec_nth_pattern_matches(
            pat,
            Date { year: y, month: mo, day: da as u8 },
        ) && 1 <= db <= dim && #[trigger] spec_nth_pattern_matches(
            pat,
            Date { year: y, month: mo, day: db as u8 },
        )) implies da == db by {
        let da_date = Date { year: y, month: mo, day: da as u8 };
        let db_date = Date { year: y, month: mo, day: db as u8 };
        assert(da <= 7) by {
            if da - 1 >= 7 {
                vstd::arithmetic::div_mod::lemma_div_non_zero(da - 1, 7);
            }
        }
        assert(db <= 7) by {
            if db - 1 >= 7 {
                vstd::arithmetic::div_mod::lemma_div_non_zero(db - 1, 7);
            }
        }
        lemma_weekday_in_month(y, mo, da);
        lemma_weekday_in_month(y, mo, db);
        assert(0 <= da_date.spec_weekday_index() < 7 && 0 <= db_date.spec_weekday_index() < 7) by {
            vstd::arithmetic::div_mod::lemma_mod_pos_bound(da_date.spec_day_index(), 7);
            vstd::arithmetic::div_mod::lemma_mod_pos_bound(db_date.spec_day_index(), 7);
            crate::cal::lemma_day_index_bounds(da_date);
            crate::cal::lemma_day_index_bounds(db_date);
        }
        lemma_weekday_from_index_injective(
            da_date.spec_weekday_index(),
            db_date.spec_weekday_index(),
        );
        lemma_mod7_eq_close(base + da - 1, base + db - 1);
    }
}

/// "Last `w`" names exactly one date in any month, whatever the month's
/// length: there is exactly one day that carries weekday `w` and lies in
/// the month's last week of that weekday.
pub proof fn lemma_last_weekday_of_month_unique(y: i32, mo: u8, w: Weekday)
    requires
        crate::cal::MIN_YEAR <= y <= crate::cal::MAX_YEAR,
        1 <= mo <= 12,
    ensures
        exists|d: int|
            1 <= d <= spec_days_in_month(y as int, mo as int) && #[trigger] spec_nth_pattern_matches(
                NthWeekdayOfMonth { weekday: w, position: MonthWeekPosition::FromLast(0) },
                Date { year: y, month: mo, day: d as u8 },
            ),
        forall|d1: int, d2: int|
            (1 <= d1 <= spec_days_in_month(y as int, mo as int) && #[trigger] spec_nth_pattern_matches(
                NthWeekdayOfMonth { weekday: w, position: MonthWeekPosition::FromLast(0) },
                Date { year: y, month: mo, day: d1 as u8 },
            ) && 1 <= d2 <= spec_days_in_month(y as int, mo as int) && #[trigger] spec_nth_pattern_matches(
                NthWeekdayOfMonth { weekday: w, position: MonthWeekPosition::FromLast(0) },
                Date { year: y, month: mo, day: d2 as u8 },
            )) ==> d1 == d2,
{
    let pat = NthWeekdayOfMonth { weekday: w, position: MonthWeekPosition::FromLast(0) };
    let dim = spec_days_in_month(y as int, mo as int);
    assert(dim >= 28);
    let d1 = Date { year: y, month: mo, day: 1 };
    crate::cal::lemma_day_index_bounds(d1);
    let base = d1.spec_weekday_index();
    let widx = w.spec_index0();
    // Weekday of the last day of the month.
    let lastidx = (base + dim - 1) % 7;
    lemma_weekday_in_month(y, mo, dim);
    let delta = (lastidx - widx + 7) % 7;
    assert(0 <= delta < 7) by {
        vstd::arithmetic::div_mod::lemma_mod_pos_bound(lastidx - widx + 7, 7);
    }
    let dstar = dim - delta;
    assert(dim - 6 <= dstar <= dim);
    lemma_weekday_in_month(y, mo, dstar);
    let dd = Date { year: y, month: mo, day: dstar as u8 };
    assert(0 <= lastidx < 7) by {
        vstd::arithmetic::div_mod::lemma_mod_pos_bound(base + dim - 1, 7);
    }
    assert(dd.spec_weekday_index() == (base + dstar - 1) % 7);
    assert((base + dstar - 1) % 7 == widx) by {
        // base + dstar - 1 == (base + dim - 1) - delta, and subtracting
        // delta from the last day's weekday lands on w modulo seven.
        vstd::arithmetic::div_mod::lemma_sub_mod_noop_right(base + dim - 1, lastidx - widx + 7, 7);
        assert(((base + dim - 1) - (lastidx - widx + 7) % 7) % 7 == ((base + dim - 1) - (lastidx
            - widx + 7)) % 7);
        vstd::arithmetic::div_mod::lemma_sub_mod_noop(base + dim - 1, lastidx - widx + 7, 7);
        assert(((base + dim - 1) - (lastidx - widx + 7)) % 7 == ((base + dim - 1) - lastidx + widx
            - 7) % 7);
        lemma_mod_add_multiples_vanish((base + dim - 1) - lastidx + widx - 7, 7);
        assert((7 + ((base + dim - 1) - lastidx + widx - 7)) % 7 == ((base + dim - 1) - lastidx
            + widx - 7 + 7) % 7);
        // (base + dim - 1) - lastidx is a multiple of seven.
        lemma_fundamental_div_mod(base + dim - 1, 7);
        let q = (base + dim - 1) / 7;
        assert((base + dim - 1) - lastidx == 7 * q);
        assert((7 * q + widx) % 7 == widx % 7) by {
            lemma_mod_multiples_vanish_local(q, widx, 7);
        }
        lemma_small_mod(widx as nat, 7);
    }
    assert(dd.spec_weekday() == w) by {
        assert(Weekday::spec_from_index0(widx) == w);
    }
    assert((dim - dstar) / 7 == 0) by {
        lemma_basic_div(dim - dstar, 7);
    }
    assert(spec_nth_pattern_matches(pat, dd));
    assert(1 <= dstar <= dim && spec_nth_pattern_matches(
        pat,
        Date { year: y, month: mo, day: dstar as u8 },
    ));
    // Uniqueness: two such days lie in the last seven days and share a
    // weekday.
    assert forall|da: int, db: int|
        (1 <= da <= dim && #[trigger] spec_nth_pattern_matches(
            pat,
            Date { year: y, month: mo, day: da as u8 },
        ) && 1 <= db <= dim && #[trigger] spec_nth_pattern_matches(
            pat,
            Date { year: y, month: mo, day: db as u8 },
        )) implies da == db by {
        let da_date = Date { year: y, month: mo, day: da as u8 };
        let db_date = Date { year: y, month: mo, day: db as u8 };
        assert(da >= dim - 6) by {
            if dim - da >= 7 {
                vstd::arithmetic::div_mod::lemma_div_non_zero(dim - da, 7);
            }
        }
        assert(db >= dim - 6) by {
            if dim - db >= 7 {
                vstd::arithmetic::div_mod::lemma_div_non_zero(dim - db, 7);
            }
        }
        lemma_weekday_in_month(y, mo, da);
        lemma_weekday_in_month(y, mo, db);
        assert(0 <= da_date.spec_weekday_index() < 7 && 0 <= db_date.spec_weekday_index() < 7) by {
            vstd::arithmetic::div_mod::lemma_mod_pos_bound(da_date.spec_day_index(), 7);
            vstd::arithmetic::div_mod::lemma_mod_pos_bound(db_date.spec_day_index(), 7);
            crate::cal::lemma_day_index_bounds(da_date);
            crate::cal::lemma_day_index_bounds(db_date);
        }
        lemma_weekday_from_index_injective(
            da_date.spec_weekday_index(),
            db_date.spec_weekday_index(),
        );
        lemma_mod7_eq_close(base + da - 1, base + db - 1);
    }
}

/// Adding a multiple of the modulus changes nothing modulo it.
proof fn lemma_mod_multiples_vanish_local(q: int, r: int, m: int)
    requires
        m > 0,
    ensures
        (m * q + r) % m == r % m,
{
    vstd::arithmetic::div_mod::lemma_mod_multiples_vanish(q, r, m);
}

} // verus!
