//! A fluent accumulator for `Periodicity`: each setter records one field and
//! overwrites any earlier value of its category; nothing is checked until
//! `build`, which assembles the specification and validates it.

use vstd::prelude::*;
use crate::cal::{Timestamp, Weekday};
use crate::periodicity::{
    CustomDates, DayConstraint, MonthConstraint, NthWeekdayOfMonth, OccurrenceTimingSettings,
    Periodicity, PeriodicityConstraints, RepetitionUnit, SpecialPattern, UniqueDate,
    WeekConstraint, YearConstraint,
};
use crate::validation::{spec_valid, spec_validate, ValidationError};

verus! {

/// Builder for validated `Periodicity` values. Setters overwrite earlier
/// values of their category; only `build` validates.
#[derive(Debug, Clone, PartialEq, Eq)]
pub struct PeriodicityBuilder {
    pub rep_unit: Option<RepetitionUnit>,
    pub rep_per_unit: Option<u8>,
    pub occurrence_settings: Option<OccurrenceTimingSettings>,
    pub day_constraint: Option<DayConstraint>,
    pub week_constraint: Option<WeekConstraint>,
    pub month_constraint: Option<MonthConstraint>,
    pub year_constraint: Option<YearConstraint>,
    pub timeframe: Option<(Timestamp, Timestamp)>,
    pub week_start: Weekday,
    pub special_pattern: Option<SpecialPattern>,
    pub reference_date: Option<Timestamp>,
}

/// 1-indexed user-facing values, shifted to the 0-indexed internal form;
/// zero stays zero rather than wrapping.
pub open spec fn spec_zero_indexed(days: Seq<u8>) -> Seq<u8> {
    days.map_values(
        |d: u8|
            if d == 0 {
                0u8
            } else {
                (d - 1) as u8
            },
    )
}

/// Shifts each 1-indexed value down by one, saturating at zero.
fn zero_indexed(days: Vec<u8>) -> (r: Vec<u8>)
    ensures
        r@ == spec_zero_indexed(days@),
{
    let mut out: Vec<u8> = Vec::new();
    let mut i: usize = 0;
    while i < days.len()
        invariant
            0 <= i <= days@.len(),
            out@ == spec_zero_indexed(days@.subrange(0, i as int)),
        decreases days@.len() - i,
    {
        let d: u8 = days[i];
        if d == 0 {
            out.push(0);
        } else {
            out.push(d - 1);
        }
        proof {
            assert(days@.subrange(0, i as int + 1).drop_last() == days@.subrange(0, i as int));
            assert(out@ =~= spec_zero_indexed(days@.subrange(0, i as int + 1)));
        }
        i = i + 1;
    }
    proof {
        assert(days@.subrange(0, days@.len() as int) == days@);
    }
    out
}

impl PeriodicityBuilder {
    /// The specification this builder assembles: an unset unit becomes
    /// `Never`, everything else carries over as recorded.
    pub open spec fn spec_assemble(self) -> Periodicity {
        Periodicity {
            rep_unit: if self.rep_unit is Some {
                self.rep_unit->0
            } else {
                RepetitionUnit::Never
            },
            rep_per_unit: self.rep_per_unit,
            occurrence_settings: self.occurrence_settings,
            constraints: PeriodicityConstraints {
                day_constraint: self.day_constraint,
                week_constraint: self.week_constraint,
                month_constraint: self.month_constraint,
                year_constraint: self.year_constraint,
            },
            timeframe: self.timeframe,
            week_start: self.week_start,
            special_pattern: self.special_pattern,
            reference_date: self.reference_date,
        }
    }

    /// Every instant recorded so far is well-formed.
    pub open spec fn dates_wf(self) -> bool {
        self.spec_assemble().dates_wf()
    }

    /// A builder with nothing set and the week starting on Monday.
    pub open spec fn spec_new() -> PeriodicityBuilder {
        PeriodicityBuilder {
            rep_unit: None,
            rep_per_unit: None,
            occurrence_settings: None,
            day_constraint: None,
            week_constraint: None,
            month_constraint: None,
            year_constraint: None,
            timeframe: None,
            week_start: Weekday::Mon,
            special_pattern: None,
            reference_date: None,
        }
    }

    /// Creates a builder with nothing set.
    pub fn new() -> (r: Self)
        ensures
            r == Self::spec_new(),
    {
        PeriodicityBuilder {
            rep_unit: None,
            rep_per_unit: None,
            occurrence_settings: None,
            day_constraint: None,
            week_constraint: None,
            month_constraint: None,
            year_constraint: None,
            timeframe: None,
            week_start: Weekday::Mon,
            special_pattern: None,
            reference_date: None,
        }
    }

    /// Repeats `count` times per day.
    pub fn daily(self, count: u8) -> (r: Self)
        ensures
            r == (PeriodicityBuilder {
                rep_unit: Some(RepetitionUnit::Day),
                rep_per_unit: Some(count),
                ..self
            }),
    {
        PeriodicityBuilder {
            rep_unit: Some(RepetitionUnit::Day),
            rep_per_unit: Some(count),
            ..self
        }
    }

    /// Repeats `count` times per week.
    pub fn weekly(self, count: u8) -> (r: Self)
        ensures
            r == (PeriodicityBuilder {
                rep_unit: Some(RepetitionUnit::Week),
                rep_per_unit: Some(count),
                ..self
            }),
    {
        PeriodicityBuilder {
            rep_unit: Some(RepetitionUnit::Week),
            rep_per_unit: Some(count),
            ..self
        }
    }

    /// Repeats `count` times per month.
    pub fn monthly(self, count: u8) -> (r: Self)
        ensures
            r == (PeriodicityBuilder {
                rep_unit: Some(RepetitionUnit::Month),
                rep_per_unit: Some(count),
                ..self
            }),
    {
        PeriodicityBuilder {
            rep_unit: Some(RepetitionUnit::Month),
            rep_per_unit: Some(count),
            ..self
        }
    }

    /// Repeats `count` times per year.
    pub fn yearly(self, count: u8) -> (r: Self)
        ensures
            r == (PeriodicityBuilder {
                rep_unit: Some(RepetitionUnit::Year),
                rep_per_unit: Some(count),
                ..self
            }),
    {
        PeriodicityBuilder {
            rep_unit: Some(RepetitionUnit::Year),
            rep_per_unit: Some(count),
            ..self
        }
    }

    /// Accepts every day.
    pub fn every_day(self) -> (r: Self)
        ensures
            r == (PeriodicityBuilder { day_constraint: Some(DayConstraint::EveryDay), ..self }),
    {
        PeriodicityBuilder { day_constraint: Some(DayConstraint::EveryDay), ..self }
    }

    /// Accepts every `n`-th day from the reference date.
    pub fn every_n_days(self, n: u16) -> (r: Self)
        ensures
            r == (PeriodicityBuilder { day_constraint: Some(DayConstraint::EveryNDays(n)), ..self }),
    {
        PeriodicityBuilder { day_constraint: Some(DayConstraint::EveryNDays(n)), ..self }
    }

    /// Accepts the given weekdays.
    pub fn on_weekdays(self, weekdays: Vec<Weekday>) -> (r: Self)
        ensures
            r == (PeriodicityBuilder {
                day_constraint: Some(DayConstraint::SpecificDaysWeek(weekdays)),
                ..self
            }),
    {
        PeriodicityBuilder { day_constraint: Some(DayConstraint::SpecificDaysWeek(weekdays)), ..self }
    }

    /// Accepts the given 1-indexed days of the month, counted from the
    /// start (13 means the 13th).
    pub fn on_month_days(self, days: Vec<u8>) -> (r: Self)
        ensures
            r.day_constraint matches Some(DayConstraint::SpecificDaysMonthFromFirst(d)) && d@
                == spec_zero_indexed(days@),
            r == (PeriodicityBuilder { day_constraint: r.day_constraint, ..self }),
    {
        let zero: Vec<u8> = zero_indexed(days);
        PeriodicityBuilder {
            day_constraint: Some(DayConstraint::SpecificDaysMonthFromFirst(zero)),
            ..self
        }
    }

    /// Accepts the given 1-indexed days counted from the end of the month
    /// (1 means the last day).
    pub fn on_month_days_from_end(self, days: Vec<u8>) -> (r: Self)
        ensures
            r.day_constraint matches Some(DayConstraint::SpecificDaysMonthFromLast(d)) && d@
                == spec_zero_indexed(days@),
            r == (PeriodicityBuilder { day_constraint: r.day_constraint, ..self }),
    {
        let zero: Vec<u8> = zero_indexed(days);
        PeriodicityBuilder {
            day_constraint: Some(DayConstraint::SpecificDaysMonthFromLast(zero)),
            ..self
        }
    }

    /// Accepts the given nth weekdays of the month.
    pub fn on_nth_weekdays(self, patterns: Vec<NthWeekdayOfMonth>) -> (r: Self)
        ensures
            r == (PeriodicityBuilder {
                day_constraint: Some(DayConstraint::SpecificNthWeekdaysMonth(patterns)),
                ..self
            }),
    {
        PeriodicityBuilder {
            day_constraint: Some(DayConstraint::SpecificNthWeekdaysMonth(patterns)),
            ..self
        }
    }

    /// Accepts every week.
    pub fn every_week(self) -> (r: Self)
        ensures
            r == (PeriodicityBuilder { week_constraint: Some(WeekConstraint::EveryWeek), ..self }),
    {
        PeriodicityBuilder { week_constraint: Some(WeekConstraint::EveryWeek), ..self }
    }

    /// Accepts every `n`-th week from the reference date's week.
    pub fn every_n_weeks(self, n: u8) -> (r: Self)
        ensures
            r == (PeriodicityBuilder {
                week_constraint: Some(WeekConstraint::EveryNWeeks(n)),
                ..self
            }),
    {
        PeriodicityBuilder { week_constraint: Some(WeekConstraint::EveryNWeeks(n)), ..self }
    }

    /// Accepts the given 1-indexed weeks of the month from the start (1
    /// means the first week).
    pub fn on_weeks_of_month(self, weeks: Vec<u8>) -> (r: Self)
        ensures
            r.week_constraint matches Some(WeekConstraint::SpecificWeeksOfMonthFromFirst(w)) && w@
                == spec_zero_indexed(weeks@),
            r == (PeriodicityBuilder { week_constraint: r.week_constraint, ..self }),
    {
        let zero: Vec<u8> = zero_indexed(weeks);
        PeriodicityBuilder {
            week_constraint: Some(WeekConstraint::SpecificWeeksOfMonthFromFirst(zero)),
            ..self
        }
    }

    /// Accepts the given 1-indexed weeks counted from the end of the month
    /// (1 means the last week).
    pub fn on_weeks_of_month_from_end(self, weeks: Vec<u8>) -> (r: Self)
        ensures
            r.week_constraint matches Some(WeekConstraint::SpecificWeeksOfMonthFromLast(w)) && w@
                == spec_zero_indexed(weeks@),
            r == (PeriodicityBuilder { week_constraint: r.week_constraint, ..self }),
    {
        let zero: Vec<u8> = zero_indexed(weeks);
        PeriodicityBuilder {
            week_constraint: Some(WeekConstraint::SpecificWeeksOfMonthFromLast(zero)),
            ..self
        }
    }

    /// Accepts every month.
    pub fn every_month(self) -> (r: Self)
        ensures
            r == (PeriodicityBuilder {
                month_constraint: Some(MonthConstraint::EveryMonth),
                ..self
            }),
    {
        PeriodicityBuilder { month_constraint: Some(MonthConstraint::EveryMonth), ..self }
    }

    /// Accepts every `n`-th month from the reference date's month.
    pub fn every_n_months(self, n: u8) -> (r: Self)
        ensures
            r == (PeriodicityBuilder {
                month_constraint: Some(MonthConstraint::EveryNMonths(n)),
                ..self
            }),
    {
        PeriodicityBuilder { month_constraint: Some(MonthConstraint::EveryNMonths(n)), ..self }
    }

    /// Accepts the given months.
    pub fn in_months(self, months: Vec<crate::cal::Month>) -> (r: Self)
        ensures
            r == (PeriodicityBuilder {
                month_constraint: Some(MonthConstraint::SpecificMonths(months)),
                ..self
            }),
    {
        PeriodicityBuilder { month_constraint: Some(MonthConstraint::SpecificMonths(months)), ..self }
    }

    /// Accepts every year.
    pub fn every_year(self) -> (r: Self)
        ensures
            r == (PeriodicityBuilder { year_constraint: Some(YearConstraint::EveryYear), ..self }),
    {
        PeriodicityBuilder { year_constraint: Some(YearConstraint::EveryYear), ..self }
    }

    /// Accepts every `n`-th year from the reference date's year.
    pub fn every_n_years(self, n: u8) -> (r: Self)
        ensures
            r == (PeriodicityBuilder {
                year_constraint: Some(YearConstraint::EveryNYears(n)),
                ..self
            }),
    {
        PeriodicityBuilder { year_constraint: Some(YearConstraint::EveryNYears(n)), ..self }
    }

    /// Accepts the given years.
    pub fn in_years(self, years: Vec<i32>) -> (r: Self)
        ensures
            r == (PeriodicityBuilder {
                year_constraint: Some(YearConstraint::SpecificYears(years)),
                ..self
            }),
    {
        PeriodicityBuilder { year_constraint: Some(YearConstraint::SpecificYears(years)), ..self }
    }

    /// A one-time occurrence at the given instant.
    pub fn unique(self, date: Timestamp) -> (r: Self)
        ensures
            r == (PeriodicityBuilder {
                rep_unit: Some(RepetitionUnit::Never),
                special_pattern: Some(SpecialPattern::Unique(UniqueDate { date })),
                ..self
            }),
    {
        PeriodicityBuilder {
            rep_unit: Some(RepetitionUnit::Never),
            special_pattern: Some(SpecialPattern::Unique(UniqueDate { date })),
            ..self
        }
    }

    /// Explicit occurrence instants without a regular pattern; rejects an
    /// empty list.
    pub fn custom_dates(self, dates: Vec<Timestamp>) -> (r: Result<Self, ValidationError>)
        requires
            forall|i: int| 0 <= i < dates@.len() ==> (#[trigger] dates@[i]).wf(),
        ensures
            r is Ok <==> dates@.len() > 0,
            r is Ok ==> ({
                let b = r->Ok_0;
                &&& b.rep_unit == Some(RepetitionUnit::Never)
                &&& b.special_pattern matches Some(SpecialPattern::Custom(c)) && c.wf() && (forall|
                    t: Timestamp,
                |
                    #[trigger] c.dates@.contains(t) <==> dates@.contains(t))
                &&& b == (PeriodicityBuilder {
                    rep_unit: b.rep_unit,
                    special_pattern: b.special_pattern,
                    ..self
                })
            }),
    {
        let custom = CustomDates::new(dates)?;
        Ok(
            PeriodicityBuilder {
                rep_unit: Some(RepetitionUnit::Never),
                special_pattern: Some(SpecialPattern::Custom(custom)),
                ..self
            },
        )
    }

    /// Valid between `start` (inclusive) and `end` (exclusive).
    pub fn between(self, start: Timestamp, end: Timestamp) -> (r: Self)
        ensures
            r == (PeriodicityBuilder { timeframe: Some((start, end)), ..self }),
    {
        PeriodicityBuilder { timeframe: Some((start, end)), ..self }
    }

    /// Valid from `start` on, with the far future as the end.
    pub fn starting_from(self, start: Timestamp) -> (r: Self)
        ensures
            r.timeframe matches Some((s, e)) && s == start && e.wf() && e == (Timestamp {
                date: crate::cal::Date { year: 2200, month: 12, day: 31 },
                sec: 86399,
            }),
            r == (PeriodicityBuilder { timeframe: r.timeframe, ..self }),
    {
        let far_future = Timestamp {
            date: crate::cal::Date { year: 2200, month: 12, day: 31 },
            sec: 86399,
        };
        PeriodicityBuilder { timeframe: Some((start, far_future)), ..self }
    }

    /// Valid until `end`, with the far past as the start.
    pub fn until(self, end: Timestamp) -> (r: Self)
        ensures
            r.timeframe matches Some((s, e)) && e == end && s.wf() && s == (Timestamp {
                date: crate::cal::Date { year: 1900, month: 1, day: 1 },
                sec: 0,
            }),
            r == (PeriodicityBuilder { timeframe: r.timeframe, ..self }),
    {
        let far_past = Timestamp { date: crate::cal::Date { year: 1900, month: 1, day: 1 }, sec: 0 };
        PeriodicityBuilder { timeframe: Some((far_past, end)), ..self }
    }

    /// Anchors every-N rolling filters at the given instant.
    pub fn with_reference_date(self, date: Timestamp) -> (r: Self)
        ensures
            r == (PeriodicityBuilder { reference_date: Some(date), ..self }),
    {
        PeriodicityBuilder { reference_date: Some(date), ..self }
    }

    /// Records occurrence timing settings.
    pub fn with_occurrence_settings(self, settings: OccurrenceTimingSettings) -> (r: Self)
        ensures
            r == (PeriodicityBuilder { occurrence_settings: Some(settings), ..self }),
    {
        PeriodicityBuilder { occurrence_settings: Some(settings), ..self }
    }

    /// Sets the first day of the week for week-based calculations.
    pub fn week_starts_on(self, week_start: Weekday) -> (r: Self)
        ensures
            r == (PeriodicityBuilder { week_start, ..self }),
    {
        PeriodicityBuilder { week_start, ..self }
    }

    /// Assembles the specification and validates it: `Ok` holds exactly the
    /// assembled value, and exactly when the assembled value is valid.
    pub fn build(self) -> (r: Result<Periodicity, ValidationError>)
        requires
            self.dates_wf(),
        ensures
            r is Ok <==> spec_valid(self.spec_assemble()),
            r is Ok ==> r->Ok_0 == self.spec_assemble(),
            r is Err ==> Some(r->Err_0.kind()) == spec_validate(self.spec_assemble()),
    {
        let rep_unit: RepetitionUnit = match self.rep_unit {
            Some(u) => u,
            None => RepetitionUnit::Never,
        };
        let periodicity = Periodicity {
            rep_unit,
            rep_per_unit: self.rep_per_unit,
            occurrence_settings: self.occurrence_settings,
            constraints: PeriodicityConstraints {
                day_constraint: self.day_constraint,
                week_constraint: self.week_constraint,
                month_constraint: self.month_constraint,
                year_constraint: self.year_constraint,
            },
            timeframe: self.timeframe,
            week_start: self.week_start,
            special_pattern: self.special_pattern,
            reference_date: self.reference_date,
        };
        let rr = periodicity.validate();
        match rr {
            Ok(_) => Ok(periodicity),
            Err(e) => Err(e),
        }
    }
}

impl Default for PeriodicityBuilder {
    /// A builder with nothing set.
    fn default() -> (r: Self)
        ensures
            r == PeriodicityBuilder::spec_new(),
    {
        PeriodicityBuilder::new()
    }
}

/// Building is a function of the recorded fields alone: two equal builders
/// assemble equal specifications with equal validation verdicts, so
/// building the same specification twice yields equal values and equal
/// outcomes.
pub proof fn lemma_build_deterministic(b1: PeriodicityBuilder, b2: PeriodicityBuilder)
    requires
        b1 == b2,
    ensures
        b1.spec_assemble() == b2.spec_assemble(),
        spec_validate(b1.spec_assemble()) == spec_validate(b2.spec_assemble()),
{
}

impl Periodicity {
    /// Once per day, every day.
    pub fn daily() -> (r: Result<Periodicity, ValidationError>)
        ensures
            r is Ok,
            r is Ok ==> r->Ok_0 == PeriodicityBuilder::spec_new().daily_s(1).every_day_s(),
    {
        PeriodicityBuilder::new().daily(1).every_day().build()
    }

    /// Once per week, every week.
    pub fn weekly() -> (r: Result<Periodicity, ValidationError>)
        ensures
            r is Ok,
            r is Ok ==> r->Ok_0 == PeriodicityBuilder::spec_new().weekly_s(1).every_week_s(),
    {
        PeriodicityBuilder::new().weekly(1).every_week().build()
    }

    /// Once per month, every month.
    pub fn monthly() -> (r: Result<Periodicity, ValidationError>)
        ensures
            r is Ok,
            r is Ok ==> r->Ok_0 == PeriodicityBuilder::spec_new().monthly_s(1).every_month_s(),
    {
        PeriodicityBuilder::new().monthly(1).every_month().build()
    }

    /// Once per year, every year.
    pub fn yearly() -> (r: Result<Periodicity, ValidationError>)
        ensures
            r is Ok,
            r is Ok ==> r->Ok_0 == PeriodicityBuilder::spec_new().yearly_s(1).every_year_s(),
    {
        PeriodicityBuilder::new().yearly(1).every_year().build()
    }

    /// A one-time task at the given instant.
    pub fn unique(date: Timestamp) -> (r: Result<Periodicity, ValidationError>)
        requires
            date.wf(),
        ensures
            r is Ok,
            r is Ok ==> r->Ok_0.rep_unit == RepetitionUnit::Never,
            r is Ok ==> r->Ok_0.special_pattern == Some(
                SpecialPattern::Unique(UniqueDate { date }),
            ),
    {
        PeriodicityBuilder::new().unique(date).build()
    }

    /// Once per day on the given weekdays.
    pub fn on_weekdays(weekdays: Vec<Weekday>) -> (r: Result<Periodicity, ValidationError>)
        ensures
            r is Ok <==> crate::validation::spec_check_day(
                DayConstraint::SpecificDaysWeek(weekdays),
            ) is None,
            r is Ok ==> r->Ok_0 == PeriodicityBuilder::spec_new().daily_s(1).with_day_s(
                DayConstraint::SpecificDaysWeek(weekdays),
            ),
    {
        PeriodicityBuilder::new().daily(1).on_weekdays(weekdays).build()
    }

    /// Once per day on the given 1-indexed days of the month.
    pub fn on_days_of_month(days: Vec<u8>) -> (r: Result<Periodicity, ValidationError>)
        ensures
            r is Ok <==> crate::validation::spec_check_month_days(
                spec_zero_indexed(days@),
            ) is None,
            r is Ok ==> (r->Ok_0.constraints.day_constraint matches Some(
                DayConstraint::SpecificDaysMonthFromFirst(d),
            ) && d@ == spec_zero_indexed(days@)),
            r is Ok ==> r->Ok_0.rep_unit == RepetitionUnit::Day,
    {
        PeriodicityBuilder::new().daily(1).on_month_days(days).build()
    }
}

impl PeriodicityBuilder {
    /// The specification `daily(count)` would contribute, for stating the
    /// convenience constructors' results.
    pub open spec fn daily_s(self, count: u8) -> Periodicity {
        (PeriodicityBuilder {
            rep_unit: Some(RepetitionUnit::Day),
            rep_per_unit: Some(count),
            ..self
        }).spec_assemble()
    }

    /// As `daily_s`, for `weekly(count)`.
    pub open spec fn weekly_s(self, count: u8) -> Periodicity {
        (PeriodicityBuilder {
            rep_unit: Some(RepetitionUnit::Week),
            rep_per_unit: Some(count),
            ..self
        }).spec_assemble()
    }

    /// As `daily_s`, for `monthly(count)`.
    pub open spec fn monthly_s(self, count: u8) -> Periodicity {
        (PeriodicityBuilder {
            rep_unit: Some(RepetitionUnit::Month),
            rep_per_unit: Some(count),
            ..self
        }).spec_assemble()
    }

    /// As `daily_s`, for `yearly(count)`.
    pub open spec fn yearly_s(self, count: u8) -> Periodicity {
        (PeriodicityBuilder {
            rep_unit: Some(RepetitionUnit::Year),
            rep_per_unit: Some(count),
            ..self
        }).spec_assemble()
    }
}

// Spec-level views of the assembled specifications with one filter set,
// used by the convenience constructors' contracts.
impl Periodicity {
    /// This specification with the day filter replaced.
    pub open spec fn with_day_s(self, c: DayConstraint) -> Periodicity {
        Periodicity {
            constraints: PeriodicityConstraints {
                day_constraint: Some(c),
                ..self.constraints
            },
            ..self
        }
    }

    /// This specification with the day filter set to accept every day.
    pub open spec fn every_day_s(self) -> Periodicity {
        self.with_day_s(DayConstraint::EveryDay)
    }

    /// This specification with the week filter set to accept every week.
    pub open spec fn every_week_s(self) -> Periodicity {
        Periodicity {
            constraints: PeriodicityConstraints {
                week_constraint: Some(WeekConstraint::EveryWeek),
                ..self.constraints
            },
            ..self
        }
    }

    /// This specification with the month filter set to accept every month.
    pub open spec fn every_month_s(self) -> Periodicity {
        Periodicity {
            constraints: PeriodicityConstraints {
                month_constraint: Some(MonthConstraint::EveryMonth),
                ..self.constraints
            },
            ..self
        }
    }

    /// This specification with the year filter set to accept every year.
    pub open spec fn every_year_s(self) -> Periodicity {
        Periodicity {
            constraints: PeriodicityConstraints {
                year_constraint: Some(YearConstraint::EveryYear),
                ..self.constraints
            },
            ..self
        }
    }
}

} // verus!
