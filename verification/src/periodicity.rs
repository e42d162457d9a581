//! The recurrence vocabulary: how often a task repeats, which dates it may
//! fall on, and the aggregate `Periodicity` specification that the validator
//! checks and the matcher evaluates.

use vstd::prelude::*;
use crate::cal::{TimeOfDay, Timestamp, Weekday};
use crate::validation::ValidationError;

verus! {

/// Time unit a repetition count is measured against. `Never` marks a
/// specification governed entirely by a special pattern instead of a
/// frequency.
#[derive(Debug, Clone, Copy, PartialEq, Eq, Structural)]
pub enum RepetitionUnit {
    Day,
    Week,
    Month,
    Year,
    Never,
}

/// Which week of the month an nth-weekday pattern counts from.
#[derive(Debug, Clone, Copy, PartialEq, Eq, Structural)]
pub enum MonthWeekPosition {
    /// Week counted from the start of the month (0 through 4).
    FromFirst(u8),
    /// Week counted from the end of the month (0 through 4).
    FromLast(u8),
}

impl MonthWeekPosition {
    /// The raw week number this position carries.
    pub open spec fn spec_value(self) -> int {
        match self {
            MonthWeekPosition::FromFirst(v) => v as int,
            MonthWeekPosition::FromLast(v) => v as int,
        }
    }
}

/// A weekday paired with a week-of-month position: "first Monday", "last
/// Friday", "third Wednesday".
#[derive(Debug, Clone, Copy, PartialEq, Eq, Structural)]
pub struct NthWeekdayOfMonth {
    pub weekday: Weekday,
    pub position: MonthWeekPosition,
}

impl NthWeekdayOfMonth {
    /// First occurrence of `weekday` in a month.
    pub fn first(weekday: Weekday) -> (r: Self)
        ensures
            r == (NthWeekdayOfMonth { weekday, position: MonthWeekPosition::FromFirst(0) }),
    {
        Self { weekday, position: MonthWeekPosition::FromFirst(0) }
    }

    /// Second occurrence of `weekday` in a month.
    pub fn second(weekday: Weekday) -> (r: Self)
        ensures
            r == (NthWeekdayOfMonth { weekday, position: MonthWeekPosition::FromFirst(1) }),
    {
        Self { weekday, position: MonthWeekPosition::FromFirst(1) }
    }

    /// Third occurrence of `weekday` in a month.
    pub fn third(weekday: Weekday) -> (r: Self)
        ensures
            r == (NthWeekdayOfMonth { weekday, position: MonthWeekPosition::FromFirst(2) }),
    {
        Self { weekday, position: MonthWeekPosition::FromFirst(2) }
    }

    /// Fourth occurrence of `weekday` in a month.
    pub fn fourth(weekday: Weekday) -> (r: Self)
        ensures
            r == (NthWeekdayOfMonth { weekday, position: MonthWeekPosition::FromFirst(3) }),
    {
        Self { weekday, position: MonthWeekPosition::FromFirst(3) }
    }

    /// Last occurrence of `weekday` in a month.
    pub fn last(weekday: Weekday) -> (r: Self)
        ensures
            r == (NthWeekdayOfMonth { weekday, position: MonthWeekPosition::FromLast(0) }),
    {
        Self { weekday, position: MonthWeekPosition::FromLast(0) }
    }

    /// Second-to-last occurrence of `weekday` in a month.
    pub fn second_last(weekday: Weekday) -> (r: Self)
        ensures
            r == (NthWeekdayOfMonth { weekday, position: MonthWeekPosition::FromLast(1) }),
    {
        Self { weekday, position: MonthWeekPosition::FromLast(1) }
    }
}

/// Filter on which days a task may occur.
#[derive(Debug, Clone, PartialEq, Eq)]
pub enum DayConstraint {
    /// Every day.
    EveryDay,
    /// Every `n` days counted from the effective reference date (1 through
    /// 366).
    EveryNDays(u16),
    /// Days of the week, 1 through 7 unique weekdays.
    SpecificDaysWeek(Vec<Weekday>),
    /// 0-indexed days of the month from the start (0 is the 1st), 1 through
    /// 31 unique values, each at most 30.
    SpecificDaysMonthFromFirst(Vec<u8>),
    /// 0-indexed days of the month from the end (0 is the last day), 1
    /// through 31 unique values, each at most 30.
    SpecificDaysMonthFromLast(Vec<u8>),
    /// Nth weekdays of the month, 1 through 20 unique patterns.
    SpecificNthWeekdaysMonth(Vec<NthWeekdayOfMonth>),
}

/// Filter on which weeks a task may occur.
#[derive(Debug, Clone, PartialEq, Eq)]
pub enum WeekConstraint {
    /// Every week.
    EveryWeek,
    /// Every `n` weeks counted from the effective reference date's week (1
    /// through 52).
    EveryNWeeks(u8),
    /// 0-indexed weeks of the month from the first occurrence of the week
    /// start, 1 through 5 unique values, each at most 4.
    SpecificWeeksOfMonthFromFirst(Vec<u8>),
    /// 0-indexed weeks of the month from the last complete week, 1 through 5
    /// unique values, each at most 4.
    SpecificWeeksOfMonthFromLast(Vec<u8>),
}

/// Filter on which months a task may occur.
#[derive(Debug, Clone, PartialEq, Eq)]
pub enum MonthConstraint {
    /// Every month.
    EveryMonth,
    /// Every `n` months counted from the effective reference date's month (1
    /// through 12).
    EveryNMonths(u8),
    /// Calendar months, 1 through 12 unique values.
    SpecificMonths(Vec<crate::cal::Month>),
}

/// Filter on which years a task may occur.
#[derive(Debug, Clone, PartialEq, Eq)]
pub enum YearConstraint {
    /// Every year.
    EveryYear,
    /// Every `n` years counted from the effective reference date's year (1
    /// through 100).
    EveryNYears(u8),
    /// Absolute years, 1 through 100 unique values, each between 1900 and
    /// 2200.
    SpecificYears(Vec<i32>),
}

/// A non-empty, strictly sorted, duplicate-free list of instants for tasks
/// that follow no regular pattern.
#[derive(Debug, Clone, PartialEq, Eq)]
pub struct CustomDates {
    pub dates: Vec<Timestamp>,
}

impl CustomDates {
    /// Whether the list is strictly sorted by instant, holds only
    /// well-formed instants, and is non-empty.
    pub open spec fn wf(self) -> bool {
        &&& self.dates@.len() > 0
        &&& forall|i: int| 0 <= i < self.dates@.len() ==> (#[trigger] self.dates@[i]).wf()
        &&& forall|i: int, j: int|
            0 <= i < j < self.dates@.len() ==> self.dates@[i].spec_epoch_sec()
                < self.dates@[j].spec_epoch_sec()
    }

    /// Sorts the given instants, removes duplicates, and rejects an empty
    /// list. The result holds exactly the given instants, in ascending
    /// order, each once.
    pub fn new(dates: Vec<Timestamp>) -> (r: Result<CustomDates, ValidationError>)
        requires
            forall|i: int| 0 <= i < dates@.len() ==> (#[trigger] dates@[i]).wf(),
        ensures
            r is Ok <==> dates@.len() > 0,
            r is Err ==> r->Err_0 is InvalidValue,
            r is Ok ==> r->Ok_0.wf(),
            r is Ok ==> forall|t: Timestamp| #[trigger]
                r->Ok_0.dates@.contains(t) <==> dates@.contains(t),
    {
        if dates.len() == 0 {
            return Err(
                ValidationError::InvalidValue {
                    field: "CustomDates".to_owned(),
                    value: "empty".to_owned(),
                    reason: "Must contain at least one date".to_owned(),
                },
            );
        }
        let ghost all: Seq<Timestamp> = dates@;
        let mut out: Vec<Timestamp> = Vec::new();
        let mut k: usize = 0;
        while k < dates.len()
            invariant
                0 <= k <= all.len(),
                dates@ == all,
                forall|i: int| 0 <= i < all.len() ==> (#[trigger] all[i]).wf(),
                forall|i: int| 0 <= i < out@.len() ==> (#[trigger] out@[i]).wf(),
                forall|i: int, j: int|
                    0 <= i < j < out@.len() ==> out@[i].spec_epoch_sec()
                        < out@[j].spec_epoch_sec(),
                forall|t: Timestamp| #[trigger]
                    out@.contains(t) ==> all.subrange(0, k as int).contains(t),
                forall|t: Timestamp| #[trigger]
                    all.subrange(0, k as int).contains(t) ==> out@.contains(t),
            decreases all.len() - k,
        {
            let x: Timestamp = dates[k];
            let mut i: usize = 0;
            while i < out.len() && out[i].lt(&x)
                invariant
                    0 <= i <= out@.len(),
                    x.wf(),
                    forall|q: int| 0 <= q < out@.len() ==> (#[trigger] out@[q]).wf(),
                    forall|q: int|
                        0 <= q < i ==> (#[trigger] out@[q]).spec_epoch_sec()
                            < x.spec_epoch_sec(),
                decreases out@.len() - i,
            {
                i = i + 1;
            }
            let is_dup: bool = if i < out.len() {
                out[i].epoch_sec() == x.epoch_sec()
            } else {
                false
            };
            if is_dup {
                proof {
                    crate::cal::lemma_epoch_sec_injective(out@[i as int], x);
                    assert(out@.contains(x));
                    lemma_contains_extend(all, k as int, x, out@);
                }
            } else {
                let ghost before: Seq<Timestamp> = out@;
                out.insert(i, x);
                proof {
                    let ii = i as int;
                    assert(out@ == before.insert(ii, x));
                    before.insert_ensures(ii, x);
                    assert forall|j: int| 0 <= j < out@.len() implies #[trigger] out@[j] == (if j
                        < ii {
                        before[j]
                    } else if j == ii {
                        x
                    } else {
                        before[j - 1]
                    }) by {
                        if j > ii {
                            let jj = j - 1;
                            assert(before.insert(ii, x)[jj + 1] == before[jj]);
                        }
                    }
                    assert forall|t: Timestamp| #[trigger] out@.contains(t) implies all.subrange(
                        0,
                        k as int + 1,
                    ).contains(t) by {
                        let q = choose|q: int| 0 <= q < out@.len() && #[trigger] out@[q] == t;
                        if q == ii {
                            assert(all.subrange(0, k as int + 1)[k as int] == x);
                        } else {
                            if q < ii {
                                assert(before[q] == t);
                            } else {
                                assert(before[q - 1] == t);
                            }
                            assert(before.contains(t));
                            assert(all.subrange(0, k as int).contains(t));
                            lemma_subrange_contains_widen(all, k as int, t);
                        }
                    }
                    assert forall|t: Timestamp| #[trigger]
                        all.subrange(0, k as int + 1).contains(t) implies out@.contains(t) by {
                        let q = choose|q: int|
                            0 <= q < k as int + 1 && #[trigger] all.subrange(0, k as int + 1)[q]
                                == t;
                        if q == k as int {
                            assert(out@[ii] == x);
                            assert(out@.contains(x));
                        } else {
                            assert(all.subrange(0, k as int)[q] == t);
                            assert(all.subrange(0, k as int).contains(t));
                            assert(before.contains(t));
                            let p = choose|p: int|
                                0 <= p < before.len() && #[trigger] before[p] == t;
                            if p < ii {
                                assert(out@[p] == t);
                            } else {
                                assert(out@[p + 1] == t);
                            }
                        }
                    }
                }
            }
            k = k + 1;
        }
        proof {
            assert(all.subrange(0, all.len() as int) == all);
            assert(all.contains(all[0]));
            assert(out@.contains(all[0]));
        }
        Ok(CustomDates { dates: out })
    }
}

/// Extending a scanned prefix by an element the output already holds keeps
/// the output's contents equal to the prefix's.
proof fn lemma_contains_extend(all: Seq<Timestamp>, k: int, x: Timestamp, out: Seq<Timestamp>)
    requires
        0 <= k < all.len(),
        all[k] == x,
        out.contains(x),
        forall|t: Timestamp| #[trigger] out.contains(t) ==> all.subrange(0, k).contains(t),
        forall|t: Timestamp| #[trigger] all.subrange(0, k).contains(t) ==> out.contains(t),
    ensures
        forall|t: Timestamp| #[trigger] out.contains(t) ==> all.subrange(0, k + 1).contains(t),
        forall|t: Timestamp| #[trigger] all.subrange(0, k + 1).contains(t) ==> out.contains(t),
{
    assert forall|t: Timestamp| #[trigger] out.contains(t) implies all.subrange(0, k + 1).contains(
        t,
    ) by {
        assert(all.subrange(0, k).contains(t));
        lemma_subrange_contains_widen(all, k, t);
    }
    assert forall|t: Timestamp| #[trigger] all.subrange(0, k + 1).contains(t) implies out.contains(
        t,
    ) by {
        let q = choose|q: int| 0 <= q < k + 1 && #[trigger] all.subrange(0, k + 1)[q] == t;
        if q == k {
            assert(t == x);
        } else {
            assert(all.subrange(0, k)[q] == t);
            assert(all.subrange(0, k).contains(t));
        }
    }
}

/// Whatever a prefix of a sequence holds, a longer prefix holds too.
proof fn lemma_subrange_contains_widen(all: Seq<Timestamp>, k: int, t: Timestamp)
    requires
        0 <= k < all.len(),
        all.subrange(0, k).contains(t),
    ensures
        all.subrange(0, k + 1).contains(t),
{
    let q = choose|q: int| 0 <= q < k && all.subrange(0, k)[q] == t;
    assert(all.subrange(0, k + 1)[q] == t);
}

/// A one-time task's single instant.
#[derive(Debug, Clone, Copy, PartialEq, Eq, Structural)]
pub struct UniqueDate {
    pub date: Timestamp,
}

/// A non-periodic occurrence pattern: a single instant, or an explicit list.
#[derive(Debug, Clone, PartialEq, Eq)]
pub enum SpecialPattern {
    Custom(CustomDates),
    Unique(UniqueDate),
}

/// Timing preferences for one repetition slot within a unit.
#[derive(Debug, Clone, Copy, PartialEq, Eq, Structural)]
pub struct RepTimingSettings {
    /// 0-indexed repetition slot this setting applies to.
    pub rep_index: u8,
    /// Earliest time of day for this slot.
    pub not_before: Option<TimeOfDay>,
    /// Time of day this slot is best finished by.
    pub best_before: Option<TimeOfDay>,
}

/// Timing preferences for occurrences: duration and time-of-day windows.
#[derive(Debug, Clone, PartialEq, Eq)]
pub struct OccurrenceTimingSettings {
    /// Expected duration in minutes (1 through 1440).
    pub duration: Option<u16>,
    /// Earliest time of day for any occurrence.
    pub not_before: Option<TimeOfDay>,
    /// Time of day occurrences are best finished by.
    pub best_before: Option<TimeOfDay>,
    /// Per-repetition settings, unique and in range when present.
    pub rep_timing_settings: Option<Vec<RepTimingSettings>>,
}

/// The four optional filters of a recurrence, combined with AND semantics.
#[derive(Debug, Clone, PartialEq, Eq)]
pub struct PeriodicityConstraints {
    pub day_constraint: Option<DayConstraint>,
    pub week_constraint: Option<WeekConstraint>,
    pub month_constraint: Option<MonthConstraint>,
    pub year_constraint: Option<YearConstraint>,
}

impl PeriodicityConstraints {
    /// No filters at all.
    pub open spec fn spec_empty() -> PeriodicityConstraints {
        PeriodicityConstraints {
            day_constraint: None,
            week_constraint: None,
            month_constraint: None,
            year_constraint: None,
        }
    }

    /// Builds the filter set with no filters present.
    pub fn new() -> (r: PeriodicityConstraints)
        ensures
            r == PeriodicityConstraints::spec_empty(),
    {
        PeriodicityConstraints {
            day_constraint: None,
            week_constraint: None,
            month_constraint: None,
            year_constraint: None,
        }
    }
}

impl Default for PeriodicityConstraints {
    /// The filter set with no filters present.
    fn default() -> (r: PeriodicityConstraints)
        ensures
            r == PeriodicityConstraints::spec_empty(),
    {
        PeriodicityConstraints::new()
    }
}

/// The aggregate recurrence specification: a frequency, filters, an optional
/// validity timeframe, a week-start convention, an optional special pattern,
/// and an optional anchor for rolling every-N filters.
#[derive(Debug, Clone, PartialEq, Eq)]
pub struct Periodicity {
    /// Time unit for repetition.
    pub rep_unit: RepetitionUnit,
    /// Occurrences per unit; required unless `rep_unit` is `Never`.
    pub rep_per_unit: Option<u8>,
    /// Timing preferences for occurrences.
    pub occurrence_settings: Option<OccurrenceTimingSettings>,
    /// Filters a candidate date must pass, AND-ed together.
    pub constraints: PeriodicityConstraints,
    /// Validity period: start inclusive, end exclusive.
    pub timeframe: Option<(Timestamp, Timestamp)>,
    /// First day of the week for week-based calculations.
    pub week_start: Weekday,
    /// Non-periodic pattern; mutually exclusive with a frequency and with
    /// filters.
    pub special_pattern: Option<SpecialPattern>,
    /// Anchor for every-N rolling filters.
    pub reference_date: Option<Timestamp>,
}

} // verus!
