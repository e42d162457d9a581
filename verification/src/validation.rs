//! Validation of a `Periodicity` before use: the matcher assumes its inputs
//! passed these checks and never re-validates. The first failed check wins;
//! nothing is accumulated. Each check's verdict is captured by a spec
//! function, and the validators return `Ok` exactly when the verdict is
//! clean, with the error's variant matching the verdict's kind.

use vstd::prelude::*;
use crate::cal::Month;
use crate::periodicity::{
    DayConstraint, MonthConstraint, MonthWeekPosition, NthWeekdayOfMonth, OccurrenceTimingSettings,
    Periodicity, PeriodicityConstraints, RepTimingSettings, RepetitionUnit, SpecialPattern,
    WeekConstraint, YearConstraint,
};

verus! {

/// A validation failure, carrying structured context for messages.
#[derive(Debug, Clone, PartialEq, Eq)]
pub enum ValidationError {
    /// A field holds an unacceptable value.
    InvalidValue { field: String, value: String, reason: String },
    /// A required field is absent.
    MissingRequired { field: String, reason: String },
    /// A constraint clashes with the repetition unit.
    IncompatibleConstraint { rep_unit: RepetitionUnit, constraint_type: String, reason: String },
    /// Two constraints exclude each other.
    ConflictingConstraints { constraint1: String, constraint2: String, reason: String },
    /// Values repeat where uniqueness is required.
    DuplicateValues { field: String, reason: String },
    /// A collection is empty where values are required.
    EmptyCollection { field: String, reason: String },
    /// A value lies outside its range.
    OutOfRange { field: String, value: String, min: String, max: String },
    /// The timeframe's start does not precede its end.
    InvalidTimeframe { reason: String },
}

/// The variant of a `ValidationError`, without its display context.
#[derive(Debug, Clone, Copy, PartialEq, Eq, Structural)]
pub enum ValidationErrorKind {
    InvalidValue,
    MissingRequired,
    IncompatibleConstraint,
    ConflictingConstraints,
    DuplicateValues,
    EmptyCollection,
    OutOfRange,
    InvalidTimeframe,
}

impl ValidationError {
    /// This error's variant.
    pub open spec fn kind(self) -> ValidationErrorKind {
        match self {
            ValidationError::InvalidValue { .. } => ValidationErrorKind::InvalidValue,
            ValidationError::MissingRequired { .. } => ValidationErrorKind::MissingRequired,
            ValidationError::IncompatibleConstraint { .. } => ValidationErrorKind::IncompatibleConstraint,
            ValidationError::ConflictingConstraints { .. } => ValidationErrorKind::ConflictingConstraints,
            ValidationError::DuplicateValues { .. } => ValidationErrorKind::DuplicateValues,
            ValidationError::EmptyCollection { .. } => ValidationErrorKind::EmptyCollection,
            ValidationError::OutOfRange { .. } => ValidationErrorKind::OutOfRange,
            ValidationError::InvalidTimeframe { .. } => ValidationErrorKind::InvalidTimeframe,
        }
    }
}

/// Whether `s` holds two equal elements at distinct positions before `k`.
pub open spec fn spec_dup_before<T>(s: Seq<T>, k: int) -> bool {
    exists|p: int, q: int| 0 <= p < q < k && s[p] == s[q]
}

/// Whether `s` holds two equal elements at distinct positions.
pub open spec fn has_dup<T>(s: Seq<T>) -> bool {
    spec_dup_before(s, s.len() as int)
}

/// Scanning one more element extends a duplicate search by the pairs that
/// end at that element.
proof fn lemma_dup_step<T>(s: Seq<T>, i: int)
    requires
        0 <= i < s.len(),
    ensures
        spec_dup_before(s, i + 1) == (spec_dup_before(s, i) || exists|p: int|
            0 <= p < i && s[p] == s[i]),
{
    if spec_dup_before(s, i + 1) {
        let (p, q) = choose|p: int, q: int| 0 <= p < q < i + 1 && s[p] == s[q];
        if q < i {
            assert(spec_dup_before(s, i));
        } else {
            assert(s[p] == s[i]);
        }
    }
    if spec_dup_before(s, i) {
        let (p, q) = choose|p: int, q: int| 0 <= p < q < i && s[p] == s[q];
        assert(0 <= p < q < i + 1 && s[p] == s[q]);
    }
    if exists|p: int| 0 <= p < i && s[p] == s[i] {
        let p = choose|p: int| 0 <= p < i && s[p] == s[i];
        assert(0 <= p < i < i + 1 && s[p] == s[i]);
    }
}

// ────────────────────────────────────────────────────────────────────
// Verdicts: what each check finds, as a spec-level value.
// ────────────────────────────────────────────────────────────────────

/// Practical ceiling on occurrences per unit.
pub open spec fn spec_rep_max(u: RepetitionUnit) -> int {
    match u {
        RepetitionUnit::Day => 100,
        RepetitionUnit::Week => 50,
        RepetitionUnit::Month => 100,
        RepetitionUnit::Year => 255,
        RepetitionUnit::Never => 0,
    }
}

/// Verdict on the frequency fields: a unit other than `Never` needs a count
/// between 1 and its ceiling; `Never` forbids a count.
pub open spec fn spec_check_repetition(p: Periodicity) -> Option<ValidationErrorKind> {
    match p.rep_unit {
        RepetitionUnit::Never => if p.rep_per_unit is Some {
            Some(ValidationErrorKind::InvalidValue)
        } else {
            None
        },
        _ => match p.rep_per_unit {
            None => Some(ValidationErrorKind::MissingRequired),
            Some(c) => if c == 0 {
                Some(ValidationErrorKind::InvalidValue)
            } else if c > spec_rep_max(p.rep_unit) {
                Some(ValidationErrorKind::OutOfRange)
            } else {
                None
            },
        },
    }
}

/// Verdict on a 0-indexed day-of-month list: non-empty, at most 31 entries,
/// each at most 30, no duplicates.
pub open spec fn spec_check_month_days(days: Seq<u8>) -> Option<ValidationErrorKind> {
    if days.len() == 0 {
        Some(ValidationErrorKind::EmptyCollection)
    } else if days.len() > 31 {
        Some(ValidationErrorKind::OutOfRange)
    } else if exists|i: int| 0 <= i < days.len() && #[trigger] days[i] > 30 {
        Some(ValidationErrorKind::OutOfRange)
    } else if has_dup(days) {
        Some(ValidationErrorKind::DuplicateValues)
    } else {
        None
    }
}

/// Verdict on a day constraint.
pub open spec fn spec_check_day(c: DayConstraint) -> Option<ValidationErrorKind> {
    match c {
        DayConstraint::EveryDay => None,
        DayConstraint::EveryNDays(n) => if n == 0 {
            Some(ValidationErrorKind::InvalidValue)
        } else if n > 366 {
            Some(ValidationErrorKind::OutOfRange)
        } else {
            None
        },
        DayConstraint::SpecificDaysWeek(w) => if w@.len() == 0 {
            Some(ValidationErrorKind::EmptyCollection)
        } else if w@.len() > 7 {
            Some(ValidationErrorKind::OutOfRange)
        } else if has_dup(w@) {
            Some(ValidationErrorKind::DuplicateValues)
        } else {
            None
        },
        DayConstraint::SpecificDaysMonthFromFirst(d) => spec_check_month_days(d@),
        DayConstraint::SpecificDaysMonthFromLast(d) => spec_check_month_days(d@),
        DayConstraint::SpecificNthWeekdaysMonth(pats) => if pats@.len() == 0 {
            Some(ValidationErrorKind::EmptyCollection)
        } else if pats@.len() > 20 {
            Some(ValidationErrorKind::OutOfRange)
        } else if exists|i: int|
            0 <= i < pats@.len() && (#[trigger] pats@[i]).position.spec_value() > 4 {
            Some(ValidationErrorKind::InvalidValue)
        } else if has_dup(pats@) {
            Some(ValidationErrorKind::DuplicateValues)
        } else {
            None
        },
    }
}

/// Verdict on a 0-indexed week-of-month list: non-empty, at most 5 entries,
/// each at most 4, no duplicates.
pub open spec fn spec_check_weeks_of_month(weeks: Seq<u8>) -> Option<ValidationErrorKind> {
    if weeks.len() == 0 {
        Some(ValidationErrorKind::EmptyCollection)
    } else if weeks.len() > 5 {
        Some(ValidationErrorKind::OutOfRange)
    } else if exists|i: int| 0 <= i < weeks.len() && #[trigger] weeks[i] > 4 {
        Some(ValidationErrorKind::OutOfRange)
    } else if has_dup(weeks) {
        Some(ValidationErrorKind::DuplicateValues)
    } else {
        None
    }
}

/// Verdict on a week constraint.
pub open spec fn spec_check_week(c: WeekConstraint) -> Option<ValidationErrorKind> {
    match c {
        WeekConstraint::EveryWeek => None,
        WeekConstraint::EveryNWeeks(n) => if n == 0 {
            Some(ValidationErrorKind::InvalidValue)
        } else if n > 52 {
            Some(ValidationErrorKind::OutOfRange)
        } else {
            None
        },
        WeekConstraint::SpecificWeeksOfMonthFromFirst(w) => spec_check_weeks_of_month(w@),
        WeekConstraint::SpecificWeeksOfMonthFromLast(w) => spec_check_weeks_of_month(w@),
    }
}

/// Verdict on a month constraint.
pub open spec fn spec_check_month(c: MonthConstraint) -> Option<ValidationErrorKind> {
    match c {
        MonthConstraint::EveryMonth => None,
        MonthConstraint::EveryNMonths(n) => if n == 0 {
            Some(ValidationErrorKind::InvalidValue)
        } else if n > 12 {
            Some(ValidationErrorKind::OutOfRange)
        } else {
            None
        },
        MonthConstraint::SpecificMonths(m) => if m@.len() == 0 {
            Some(ValidationErrorKind::EmptyCollection)
        } else if m@.len() > 12 {
            Some(ValidationErrorKind::OutOfRange)
        } else if has_dup(m@) {
            Some(ValidationErrorKind::DuplicateValues)
        } else {
            None
        },
    }
}

/// Verdict on a year constraint.
pub open spec fn spec_check_year(c: YearConstraint) -> Option<ValidationErrorKind> {
    match c {
        YearConstraint::EveryYear => None,
        YearConstraint::EveryNYears(n) => if n == 0 {
            Some(ValidationErrorKind::InvalidValue)
        } else if n > 100 {
            Some(ValidationErrorKind::OutOfRange)
        } else {
            None
        },
        YearConstraint::SpecificYears(y) => if y@.len() == 0 {
            Some(ValidationErrorKind::EmptyCollection)
        } else if y@.len() > 100 {
            Some(ValidationErrorKind::OutOfRange)
        } else if has_dup(y@) {
            Some(ValidationErrorKind::DuplicateValues)
        } else if exists|i: int|
            0 <= i < y@.len() && (#[trigger] y@[i] < 1900 || y@[i] > 2200) {
            Some(ValidationErrorKind::OutOfRange)
        } else {
            None
        },
    }
}

/// Verdict on the four filters, day first.
pub open spec fn spec_check_constraints(c: PeriodicityConstraints) -> Option<ValidationErrorKind> {
    if c.day_constraint is Some && spec_check_day(c.day_constraint->0) is Some {
        spec_check_day(c.day_constraint->0)
    } else if c.week_constraint is Some && spec_check_week(c.week_constraint->0) is Some {
        spec_check_week(c.week_constraint->0)
    } else if c.month_constraint is Some && spec_check_month(c.month_constraint->0) is Some {
        spec_check_month(c.month_constraint->0)
    } else if c.year_constraint is Some && spec_check_year(c.year_constraint->0) is Some {
        spec_check_year(c.year_constraint->0)
    } else {
        None
    }
}

/// Verdict on constraint-versus-unit compatibility: each unit forbids the
/// analogous every-N filter of the next finer unit, and a `Never` unit
/// demands a special pattern.
pub open spec fn spec_check_compatibility(p: Periodicity) -> Option<ValidationErrorKind> {
    if p.special_pattern is Some && p.rep_unit != RepetitionUnit::Never {
        Some(ValidationErrorKind::IncompatibleConstraint)
    } else {
        match p.rep_unit {
            RepetitionUnit::Never => if p.special_pattern is None {
                Some(ValidationErrorKind::MissingRequired)
            } else {
                None
            },
            RepetitionUnit::Day => None,
            RepetitionUnit::Week => if p.constraints.day_constraint matches Some(
                DayConstraint::EveryNDays(_),
            ) {
                Some(ValidationErrorKind::IncompatibleConstraint)
            } else {
                None
            },
            RepetitionUnit::Month => if p.constraints.week_constraint matches Some(
                WeekConstraint::EveryNWeeks(_),
            ) {
                Some(ValidationErrorKind::IncompatibleConstraint)
            } else {
                None
            },
            RepetitionUnit::Year => if p.constraints.month_constraint matches Some(
                MonthConstraint::EveryNMonths(_),
            ) {
                Some(ValidationErrorKind::IncompatibleConstraint)
            } else {
                None
            },
        }
    }
}

/// Verdict on the timeframe: start strictly before end.
pub open spec fn spec_check_timeframe(
    tf: Option<(crate::cal::Timestamp, crate::cal::Timestamp)>,
) -> Option<ValidationErrorKind> {
    match tf {
        Some((s, e)) => if s.spec_epoch_sec() >= e.spec_epoch_sec() {
            Some(ValidationErrorKind::InvalidTimeframe)
        } else {
            None
        },
        None => None,
    }
}

/// Verdict on one per-repetition setting after the duplicate scan: its slot
/// must fit the repetition count and its window must be ordered.
pub open spec fn spec_check_rep_item(
    item: RepTimingSettings,
    rep_per_unit: Option<u8>,
) -> Option<ValidationErrorKind> {
    if rep_per_unit is Some && item.rep_index >= rep_per_unit->0 {
        Some(ValidationErrorKind::OutOfRange)
    } else if item.not_before is Some && item.best_before is Some && item.not_before->0.sec
        >= item.best_before->0.sec {
        Some(ValidationErrorKind::InvalidValue)
    } else {
        None
    }
}

/// Verdict on the per-repetition settings from position `i` on: the first
/// failing item decides.
pub open spec fn spec_check_rep_items(
    s: Seq<RepTimingSettings>,
    rep_per_unit: Option<u8>,
    i: int,
) -> Option<ValidationErrorKind>
    decreases s.len() - i,
{
    if i < 0 || i >= s.len() {
        None
    } else if spec_check_rep_item(s[i], rep_per_unit) is Some {
        spec_check_rep_item(s[i], rep_per_unit)
    } else {
        spec_check_rep_items(s, rep_per_unit, i + 1)
    }
}

/// Slot numbers of the per-repetition settings, for the duplicate scan.
pub open spec fn spec_rep_indices(s: Seq<RepTimingSettings>) -> Seq<u8> {
    s.map_values(|r: RepTimingSettings| r.rep_index)
}

/// Verdict on the occurrence timing settings.
pub open spec fn spec_check_occurrence(
    settings: Option<OccurrenceTimingSettings>,
    rep_per_unit: Option<u8>,
) -> Option<ValidationErrorKind> {
    match settings {
        None => None,
        Some(s) => {
            if s.duration is Some && s.duration->0 == 0 {
                Some(ValidationErrorKind::InvalidValue)
            } else if s.duration is Some && s.duration->0 > 1440 {
                Some(ValidationErrorKind::OutOfRange)
            } else if s.not_before is Some && s.best_before is Some && s.not_before->0.sec
                >= s.best_before->0.sec {
                Some(ValidationErrorKind::InvalidValue)
            } else if s.rep_timing_settings is Some {
                let reps = s.rep_timing_settings->0@;
                if reps.len() == 0 {
                    Some(ValidationErrorKind::EmptyCollection)
                } else if has_dup(spec_rep_indices(reps)) {
                    Some(ValidationErrorKind::DuplicateValues)
                } else {
                    spec_check_rep_items(reps, rep_per_unit, 0)
                }
            } else {
                None
            }
        },
    }
}

/// Verdict on a specification that carries a special pattern: the unit must
/// be `Never`, no count and no filters may be present, and a custom list
/// must be non-empty.
pub open spec fn spec_check_special(p: Periodicity, pat: SpecialPattern) -> Option<
    ValidationErrorKind,
> {
    if p.rep_unit != RepetitionUnit::Never {
        Some(ValidationErrorKind::IncompatibleConstraint)
    } else if p.rep_per_unit is Some {
        Some(ValidationErrorKind::InvalidValue)
    } else if p.constraints.day_constraint is Some || p.constraints.week_constraint is Some
        || p.constraints.month_constraint is Some || p.constraints.year_constraint is Some {
        Some(ValidationErrorKind::ConflictingConstraints)
    } else {
        match pat {
            SpecialPattern::Custom(c) => if c.dates@.len() == 0 {
                Some(ValidationErrorKind::EmptyCollection)
            } else {
                None
            },
            SpecialPattern::Unique(_) => None,
        }
    }
}

/// Verdict on a whole specification: a special pattern short-circuits into
/// its own checks; otherwise frequency, filters, compatibility, timeframe
/// and occurrence settings are checked in that order.
pub open spec fn spec_validate(p: Periodicity) -> Option<ValidationErrorKind> {
    match p.special_pattern {
        Some(pat) => spec_check_special(p, pat),
        None => {
            if spec_check_repetition(p) is Some {
                spec_check_repetition(p)
            } else if spec_check_constraints(p.constraints) is Some {
                spec_check_constraints(p.constraints)
            } else if spec_check_compatibility(p) is Some {
                spec_check_compatibility(p)
            } else if spec_check_timeframe(p.timeframe) is Some {
                spec_check_timeframe(p.timeframe)
            } else {
                spec_check_occurrence(p.occurrence_settings, p.rep_per_unit)
            }
        },
    }
}

/// A specification with a clean verdict.
pub open spec fn spec_valid(p: Periodicity) -> bool {
    spec_validate(p) is None
}

// ────────────────────────────────────────────────────────────────────
// Scan helpers.
// ────────────────────────────────────────────────────────────────────

/// Whether any entry exceeds `bound`.
fn u8_any_gt(v: &Vec<u8>, bound: u8) -> (r: bool)
    ensures
        r == exists|i: int| 0 <= i < v@.len() && #[trigger] v@[i] > bound,
{
    let mut i: usize = 0;
    let mut found: bool = false;
    while i < v.len()
        invariant
            0 <= i <= v@.len(),
            found == exists|p: int| 0 <= p < i && #[trigger] v@[p] > bound,
        decreases v@.len() - i,
    {
        if v[i] > bound {
            found = true;
        }
        i = i + 1;
    }
    found
}

/// Whether any year lies outside 1900 through 2200.
fn years_any_out(v: &Vec<i32>) -> (r: bool)
    ensures
        r == exists|i: int| 0 <= i < v@.len() && (#[trigger] v@[i] < 1900 || v@[i] > 2200),
{
    let mut i: usize = 0;
    let mut found: bool = false;
    while i < v.len()
        invariant
            0 <= i <= v@.len(),
            found == exists|p: int| 0 <= p < i && (#[trigger] v@[p] < 1900 || v@[p] > 2200),
        decreases v@.len() - i,
    {
        if v[i] < 1900 || v[i] > 2200 {
            found = true;
        }
        i = i + 1;
    }
    found
}

/// Whether any pattern's week position exceeds 4.
fn nth_any_invalid(v: &Vec<NthWeekdayOfMonth>) -> (r: bool)
    ensures
        r == exists|i: int| 0 <= i < v@.len() && (#[trigger] v@[i]).position.spec_value() > 4,
{
    let mut i: usize = 0;
    let mut found: bool = false;
    while i < v.len()
        invariant
            0 <= i <= v@.len(),
            found == exists|p: int| 0 <= p < i && (#[trigger] v@[p]).position.spec_value() > 4,
        decreases v@.len() - i,
    {
        let bad: bool = match v[i].position {
            MonthWeekPosition::FromFirst(n) => n > 4,
            MonthWeekPosition::FromLast(n) => n > 4,
        };
        if bad {
            found = true;
        }
        i = i + 1;
    }
    found
}

/// Whether the list repeats a value.
fn has_dup_u8(v: &Vec<u8>) -> (r: bool)
    ensures
        r == has_dup(v@),
{
    let mut i: usize = 0;
    let mut found: bool = false;
    while i < v.len()
        invariant
            0 <= i <= v@.len(),
            found == spec_dup_before(v@, i as int),
        decreases v@.len() - i,
    {
        let mut j: usize = 0;
        while j < i
            invariant
                0 <= j <= i < v@.len(),
                found == (spec_dup_before(v@, i as int) || exists|p: int|
                    0 <= p < j && v@[p] == v@[i as int]),
            decreases i - j,
        {
            if v[j] == v[i] {
                found = true;
            }
            j = j + 1;
        }
        proof {
            lemma_dup_step(v@, i as int);
        }
        i = i + 1;
    }
    found
}

/// Whether the list repeats a weekday.
fn has_dup_weekday(v: &Vec<crate::cal::Weekday>) -> (r: bool)
    ensures
        r == has_dup(v@),
{
    let mut i: usize = 0;
    let mut found: bool = false;
    while i < v.len()
        invariant
            0 <= i <= v@.len(),
            found == spec_dup_before(v@, i as int),
        decreases v@.len() - i,
    {
        let mut j: usize = 0;
        while j < i
            invariant
                0 <= j <= i < v@.len(),
                found == (spec_dup_before(v@, i as int) || exists|p: int|
                    0 <= p < j && v@[p] == v@[i as int]),
            decreases i - j,
        {
            if v[j] == v[i] {
                found = true;
            }
            j = j + 1;
        }
        proof {
            lemma_dup_step(v@, i as int);
        }
        i = i + 1;
    }
    found
}

/// Whether the list repeats a month.
fn has_dup_month(v: &Vec<Month>) -> (r: bool)
    ensures
        r == has_dup(v@),
{
    let mut i: usize = 0;
    let mut found: bool = false;
    while i < v.len()
        invariant
            0 <= i <= v@.len(),
            found == spec_dup_before(v@, i as int),
        decreases v@.len() - i,
    {
        let mut j: usize = 0;
        while j < i
            invariant
                0 <= j <= i < v@.len(),
                found == (spec_dup_before(v@, i as int) || exists|p: int|
                    0 <= p < j && v@[p] == v@[i as int]),
            decreases i - j,
        {
            if v[j] == v[i] {
                found = true;
            }
            j = j + 1;
        }
        proof {
            lemma_dup_step(v@, i as int);
        }
        i = i + 1;
    }
    found
}

/// Whether the list repeats a year.
fn has_dup_i32(v: &Vec<i32>) -> (r: bool)
    ensures
        r == has_dup(v@),
{
    let mut i: usize = 0;
    let mut found: bool = false;
    while i < v.len()
        invariant
            0 <= i <= v@.len(),
            found == spec_dup_before(v@, i as int),
        decreases v@.len() - i,
    {
        let mut j: usize = 0;
        while j < i
            invariant
                0 <= j <= i < v@.len(),
                found == (spec_dup_before(v@, i as int) || exists|p: int|
                    0 <= p < j && v@[p] == v@[i as int]),
            decreases i - j,
        {
            if v[j] == v[i] {
                found = true;
            }
            j = j + 1;
        }
        proof {
            lemma_dup_step(v@, i as int);
        }
        i = i + 1;
    }
    found
}

/// Whether the list repeats a pattern.
fn has_dup_nth(v: &Vec<NthWeekdayOfMonth>) -> (r: bool)
    ensures
        r == has_dup(v@),
{
    let mut i: usize = 0;
    let mut found: bool = false;
    while i < v.len()
        invariant
            0 <= i <= v@.len(),
            found == spec_dup_before(v@, i as int),
        decreases v@.len() - i,
    {
        let mut j: usize = 0;
        while j < i
            invariant
                0 <= j <= i < v@.len(),
                found == (spec_dup_before(v@, i as int) || exists|p: int|
                    0 <= p < j && v@[p] == v@[i as int]),
            decreases i - j,
        {
            if v[j] == v[i] {
                found = true;
            }
            j = j + 1;
        }
        proof {
            lemma_dup_step(v@, i as int);
        }
        i = i + 1;
    }
    found
}

/// Whether two settings share a slot number.
fn has_dup_rep_index(v: &Vec<RepTimingSettings>) -> (r: bool)
    ensures
        r == has_dup(spec_rep_indices(v@)),
{
    let ghost keys: Seq<u8> = spec_rep_indices(v@);
    assert(keys.len() == v@.len());
    let mut i: usize = 0;
    let mut found: bool = false;
    while i < v.len()
        invariant
            0 <= i <= v@.len(),
            keys == spec_rep_indices(v@),
            keys.len() == v@.len(),
            forall|p: int| 0 <= p < v@.len() ==> keys[p] == (#[trigger] v@[p]).rep_index,
            found == spec_dup_before(keys, i as int),
        decreases v@.len() - i,
    {
        let mut j: usize = 0;
        while j < i
            invariant
                0 <= j <= i < v@.len(),
                keys.len() == v@.len(),
                forall|p: int| 0 <= p < v@.len() ==> keys[p] == (#[trigger] v@[p]).rep_index,
                found == (spec_dup_before(keys, i as int) || exists|p: int|
                    0 <= p < j && keys[p] == keys[i as int]),
            decreases i - j,
        {
            if v[j].rep_index == v[i].rep_index {
                found = true;
            }
            j = j + 1;
        }
        proof {
            lemma_dup_step(keys, i as int);
        }
        i = i + 1;
    }
    found
}

// ────────────────────────────────────────────────────────────────────
// The validators.
// ────────────────────────────────────────────────────────────────────

impl MonthWeekPosition {
    /// Accepts a position whose week number is at most 4.
    pub fn validate(&self) -> (r: Result<(), ValidationError>)
        ensures
            r is Ok <==> self.spec_value() <= 4,
            r is Err ==> r->Err_0 is InvalidValue,
    {
        let value: u8 = match self {
            MonthWeekPosition::FromFirst(v) => *v,
            MonthWeekPosition::FromLast(v) => *v,
        };
        if value > 4 {
            return Err(
                ValidationError::InvalidValue {
                    field: "MonthWeekPosition".to_owned(),
                    value: value.to_string(),
                    reason: "Week position must be 0-4".to_owned(),
                },
            );
        }
        Ok(())
    }
}

/// Checks the frequency fields.
fn validate_repetition(p: &Periodicity) -> (r: Result<(), ValidationError>)
    ensures
        r is Ok <==> spec_check_repetition(*p) is None,
        r is Err ==> Some(r->Err_0.kind()) == spec_check_repetition(*p),
{
    match p.rep_unit {
        RepetitionUnit::Never => {
            if let Some(c) = p.rep_per_unit {
                return Err(
                    ValidationError::InvalidValue {
                        field: "rep_per_unit".to_owned(),
                        value: c.to_string(),
                        reason: "Must be None when rep_unit is None".to_owned(),
                    },
                );
            }
            Ok(())
        },
        _ => {
            match p.rep_per_unit {
                None => Err(
                    ValidationError::MissingRequired {
                        field: "rep_per_unit".to_owned(),
                        reason: "Required when rep_unit is set".to_owned(),
                    },
                ),
                Some(0) => Err(
                    ValidationError::InvalidValue {
                        field: "rep_per_unit".to_owned(),
                        value: "0".to_owned(),
                        reason: "Must be at least 1".to_owned(),
                    },
                ),
                Some(count) => {
                    let max: u8 = match p.rep_unit {
                        RepetitionUnit::Day => 100,
                        RepetitionUnit::Week => 50,
                        RepetitionUnit::Month => 100,
                        RepetitionUnit::Year => 255,
                        RepetitionUnit::Never => 0,
                    };
                    if count > max {
                        return Err(
                            ValidationError::OutOfRange {
                                field: "rep_per_unit".to_owned(),
                                value: count.to_string(),
                                min: "1".to_owned(),
                                max: max.to_string(),
                            },
                        );
                    }
                    Ok(())
                },
            }
        },
    }
}

/// Checks a 0-indexed day-of-month list.
fn validate_month_days(days: &Vec<u8>, field_name: &str) -> (r: Result<(), ValidationError>)
    ensures
        r is Ok <==> spec_check_month_days(days@) is None,
        r is Err ==> Some(r->Err_0.kind()) == spec_check_month_days(days@),
{
    if days.len() == 0 {
        return Err(
            ValidationError::EmptyCollection {
                field: field_name.to_owned(),
                reason: "Must contain at least one day".to_owned(),
            },
        );
    }
    if days.len() > 31 {
        return Err(
            ValidationError::OutOfRange {
                field: field_name.to_owned(),
                value: days.len().to_string(),
                min: "1".to_owned(),
                max: "31".to_owned(),
            },
        );
    }
    if u8_any_gt(days, 30) {
        return Err(
            ValidationError::OutOfRange {
                field: field_name.to_owned(),
                value: "day".to_owned(),
                min: "0".to_owned(),
                max: "30".to_owned(),
            },
        );
    }
    if has_dup_u8(days) {
        return Err(
            ValidationError::DuplicateValues {
                field: field_name.to_owned(),
                reason: "Days must be unique".to_owned(),
            },
        );
    }
    Ok(())
}

/// Checks a day constraint on its own.
pub fn validate_day_constraint(c: &DayConstraint) -> (r: Result<(), ValidationError>)
    ensures
        r is Ok <==> spec_check_day(*c) is None,
        r is Err ==> Some(r->Err_0.kind()) == spec_check_day(*c),
{
    match c {
        DayConstraint::EveryDay => Ok(()),
        DayConstraint::EveryNDays(n) => {
            if *n == 0 {
                return Err(
                    ValidationError::InvalidValue {
                        field: "EveryNDays".to_owned(),
                        value: "0".to_owned(),
                        reason: "Must be at least 1".to_owned(),
                    },
                );
            }
            if *n > 366 {
                return Err(
                    ValidationError::OutOfRange {
                        field: "EveryNDays".to_owned(),
                        value: n.to_string(),
                        min: "1".to_owned(),
                        max: "366".to_owned(),
                    },
                );
            }
            Ok(())
        },
        DayConstraint::SpecificDaysWeek(weekdays) => {
            if weekdays.len() == 0 {
                return Err(
                    ValidationError::EmptyCollection {
                        field: "SpecificDaysWeek".to_owned(),
                        reason: "Must contain at least one weekday".to_owned(),
                    },
                );
            }
            if weekdays.len() > 7 {
                return Err(
                    ValidationError::OutOfRange {
                        field: "SpecificDaysWeek".to_owned(),
                        value: weekdays.len().to_string(),
                        min: "1".to_owned(),
                        max: "7".to_owned(),
                    },
                );
            }
            if has_dup_weekday(weekdays) {
                return Err(
                    ValidationError::DuplicateValues {
                        field: "SpecificDaysWeek".to_owned(),
                        reason: "Weekdays must be unique".to_owned(),
                    },
                );
            }
            Ok(())
        },
        DayConstraint::SpecificDaysMonthFromFirst(days) => validate_month_days(
            days,
            "SpecificDaysMonthFromFirst",
        ),
        DayConstraint::SpecificDaysMonthFromLast(days) => validate_month_days(
            days,
            "SpecificDaysMonthFromLast",
        ),
        DayConstraint::SpecificNthWeekdaysMonth(patterns) => {
            if patterns.len() == 0 {
                return Err(
                    ValidationError::EmptyCollection {
                        field: "SpecificNthWeekdaysMonth".to_owned(),
                        reason: "Must contain at least one pattern".to_owned(),
                    },
                );
            }
            if patterns.len() > 20 {
                return Err(
                    ValidationError::OutOfRange {
                        field: "SpecificNthWeekdaysMonth".to_owned(),
                        value: patterns.len().to_string(),
                        min: "1".to_owned(),
                        max: "20".to_owned(),
                    },
                );
            }
            if nth_any_invalid(patterns) {
                return Err(
                    ValidationError::InvalidValue {
                        field: "MonthWeekPosition".to_owned(),
                        value: "week".to_owned(),
                        reason: "Week position must be 0-4".to_owned(),
                    },
                );
            }
            if has_dup_nth(patterns) {
                return Err(
                    ValidationError::DuplicateValues {
                        field: "SpecificNthWeekdaysMonth".to_owned(),
                        reason: "Patterns must be unique".to_owned(),
                    },
                );
            }
            Ok(())
        },
    }
}

/// Checks a 0-indexed week-of-month list.
fn validate_weeks_of_month(weeks: &Vec<u8>, field_name: &str) -> (r: Result<(), ValidationError>)
    ensures
        r is Ok <==> spec_check_weeks_of_month(weeks@) is None,
        r is Err ==> Some(r->Err_0.kind()) == spec_check_weeks_of_month(weeks@),
{
    if weeks.len() == 0 {
        return Err(
            ValidationError::EmptyCollection {
                field: field_name.to_owned(),
                reason: "Must contain at least one week".to_owned(),
            },
        );
    }
    if weeks.len() > 5 {
        return Err(
            ValidationError::OutOfRange {
                field: field_name.to_owned(),
                value: weeks.len().to_string(),
                min: "1".to_owned(),
                max: "5".to_owned(),
            },
        );
    }
    if u8_any_gt(weeks, 4) {
        return Err(
            ValidationError::OutOfRange {
                field: field_name.to_owned(),
                value: "week".to_owned(),
                min: "0".to_owned(),
                max: "4".to_owned(),
            },
        );
    }
    if has_dup_u8(weeks) {
        return Err(
            ValidationError::DuplicateValues {
                field: field_name.to_owned(),
                reason: "Weeks must be unique".to_owned(),
            },
        );
    }
    Ok(())
}

/// Checks a week constraint on its own.
pub fn validate_week_constraint(c: &WeekConstraint) -> (r: Result<(), ValidationError>)
    ensures
        r is Ok <==> spec_check_week(*c) is None,
        r is Err ==> Some(r->Err_0.kind()) == spec_check_week(*c),
{
    match c {
        WeekConstraint::EveryWeek => Ok(()),
        WeekConstraint::EveryNWeeks(n) => {
            if *n == 0 {
                return Err(
                    ValidationError::InvalidValue {
                        field: "EveryNWeeks".to_owned(),
                        value: "0".to_owned(),
                        reason: "Must be at least 1".to_owned(),
                    },
                );
            }
            if *n > 52 {
                return Err(
                    ValidationError::OutOfRange {
                        field: "EveryNWeeks".to_owned(),
                        value: n.to_string(),
                        min: "1".to_owned(),
                        max: "52".to_owned(),
                    },
                );
            }
            Ok(())
        },
        WeekConstraint::SpecificWeeksOfMonthFromFirst(weeks) => validate_weeks_of_month(
            weeks,
            "SpecificWeeksOfMonthFromFirst",
        ),
        WeekConstraint::SpecificWeeksOfMonthFromLast(weeks) => validate_weeks_of_month(
            weeks,
            "SpecificWeeksOfMonthFromLast",
        ),
    }
}

/// Checks a month constraint on its own.
pub fn validate_month_constraint(c: &MonthConstraint) -> (r: Result<(), ValidationError>)
    ensures
        r is Ok <==> spec_check_month(*c) is None,
        r is Err ==> Some(r->Err_0.kind()) == spec_check_month(*c),
{
    match c {
        MonthConstraint::EveryMonth => Ok(()),
        MonthConstraint::EveryNMonths(n) => {
            if *n == 0 {
                return Err(
                    ValidationError::InvalidValue {
                        field: "EveryNMonths".to_owned(),
                        value: "0".to_owned(),
                        reason: "Must be at least 1".to_owned(),
                    },
                );
            }
            if *n > 12 {
                return Err(
                    ValidationError::OutOfRange {
                        field: "EveryNMonths".to_owned(),
                        value: n.to_string(),
                        min: "1".to_owned(),
                        max: "12".to_owned(),
                    },
                );
            }
            Ok(())
        },
        MonthConstraint::SpecificMonths(months) => {
            if months.len() == 0 {
                return Err(
                    ValidationError::EmptyCollection {
                        field: "SpecificMonths".to_owned(),
                        reason: "Must contain at least one month".to_owned(),
                    },
                );
            }
            if months.len() > 12 {
                return Err(
                    ValidationError::OutOfRange {
                        field: "SpecificMonths".to_owned(),
                        value: months.len().to_string(),
                        min: "1".to_owned(),
                        max: "12".to_owned(),
                    },
                );
            }
            if has_dup_month(months) {
                return Err(
                    ValidationError::DuplicateValues {
                        field: "SpecificMonths".to_owned(),
                        reason: "Months must be unique".to_owned(),
                    },
                );
            }
            Ok(())
        },
    }
}

/// Checks a year constraint on its own.
pub fn validate_year_constraint(c: &YearConstraint) -> (r: Result<(), ValidationError>)
    ensures
        r is Ok <==> spec_check_year(*c) is None,
        r is Err ==> Some(r->Err_0.kind()) == spec_check_year(*c),
{
    match c {
        YearConstraint::EveryYear => Ok(()),
        YearConstraint::EveryNYears(n) => {
            if *n == 0 {
                return Err(
                    ValidationError::InvalidValue {
                        field: "EveryNYears".to_owned(),
                        value: "0".to_owned(),
                        reason: "Must be at least 1".to_owned(),
                    },
                );
            }
            if *n > 100 {
                return Err(
                    ValidationError::OutOfRange {
                        field: "EveryNYears".to_owned(),
                        value: n.to_string(),
                        min: "1".to_owned(),
                        max: "100".to_owned(),
                    },
                );
            }
            Ok(())
        },
        YearConstraint::SpecificYears(years) => {
            if years.len() == 0 {
                return Err(
                    ValidationError::EmptyCollection {
                        field: "SpecificYears".to_owned(),
                        reason: "Must contain at least one year".to_owned(),
                    },
                );
            }
            if years.len() > 100 {
                return Err(
                    ValidationError::OutOfRange {
                        field: "SpecificYears".to_owned(),
                        value: years.len().to_string(),
                        min: "1".to_owned(),
                        max: "100".to_owned(),
                    },
                );
            }
            if has_dup_i32(years) {
                return Err(
                    ValidationError::DuplicateValues {
                        field: "SpecificYears".to_owned(),
                        reason: "Years must be unique".to_owned(),
                    },
                );
            }
            if years_any_out(years) {
                return Err(
                    ValidationError::OutOfRange {
                        field: "SpecificYears".to_owned(),
                        value: "year".to_owned(),
                        min: "1900".to_owned(),
                        max: "2200".to_owned(),
                    },
                );
            }
            Ok(())
        },
    }
}

/// Checks every present filter, day first.
fn validate_constraints(c: &PeriodicityConstraints) -> (r: Result<(), ValidationError>)
    ensures
        r is Ok <==> spec_check_constraints(*c) is None,
        r is Err ==> Some(r->Err_0.kind()) == spec_check_constraints(*c),
{
    if let Some(day) = &c.day_constraint {
        let rr = validate_day_constraint(day);
        if rr.is_err() {
            return rr;
        }
    }
    if let Some(week) = &c.week_constraint {
        let rr = validate_week_constraint(week);
        if rr.is_err() {
            return rr;
        }
    }
    if let Some(month) = &c.month_constraint {
        let rr = validate_month_constraint(month);
        if rr.is_err() {
            return rr;
        }
    }
    if let Some(year) = &c.year_constraint {
        let rr = validate_year_constraint(year);
        if rr.is_err() {
            return rr;
        }
    }
    Ok(())
}

/// Checks constraint-versus-unit compatibility.
fn validate_constraint_compatibility(p: &Periodicity) -> (r: Result<(), ValidationError>)
    ensures
        r is Ok <==> spec_check_compatibility(*p) is None,
        r is Err ==> Some(r->Err_0.kind()) == spec_check_compatibility(*p),
{
    if p.special_pattern.is_some() && !matches!(p.rep_unit, RepetitionUnit::Never) {
        return Err(
            ValidationError::IncompatibleConstraint {
                rep_unit: p.rep_unit,
                constraint_type: "special_pattern".to_owned(),
                reason: "Special patterns require rep_unit to be None".to_owned(),
            },
        );
    }
    match p.rep_unit {
        RepetitionUnit::Never => {
            if p.special_pattern.is_none() {
                return Err(
                    ValidationError::MissingRequired {
                        field: "special_pattern".to_owned(),
                        reason: "Required when rep_unit is None".to_owned(),
                    },
                );
            }
            Ok(())
        },
        RepetitionUnit::Day => Ok(()),
        RepetitionUnit::Week => {
            if matches!(p.constraints.day_constraint, Some(DayConstraint::EveryNDays(_))) {
                return Err(
                    ValidationError::IncompatibleConstraint {
                        rep_unit: p.rep_unit,
                        constraint_type: "EveryNDays".to_owned(),
                        reason: "Use Week repetition unit instead".to_owned(),
                    },
                );
            }
            Ok(())
        },
        RepetitionUnit::Month => {
            if matches!(p.constraints.week_constraint, Some(WeekConstraint::EveryNWeeks(_))) {
                return Err(
                    ValidationError::IncompatibleConstraint {
                        rep_unit: p.rep_unit,
                        constraint_type: "EveryNWeeks".to_owned(),
                        reason: "Use Month repetition unit instead".to_owned(),
                    },
                );
            }
            Ok(())
        },
        RepetitionUnit::Year => {
            if matches!(p.constraints.month_constraint, Some(MonthConstraint::EveryNMonths(_))) {
                return Err(
                    ValidationError::IncompatibleConstraint {
                        rep_unit: p.rep_unit,
                        constraint_type: "EveryNMonths".to_owned(),
                        reason: "Use Year repetition unit instead".to_owned(),
                    },
                );
            }
            Ok(())
        },
    }
}

/// Checks a specification that carries a special pattern.
fn validate_special_pattern(p: &Periodicity, pat: &SpecialPattern) -> (r: Result<
    (),
    ValidationError,
>)
    ensures
        r is Ok <==> spec_check_special(*p, *pat) is None,
        r is Err ==> Some(r->Err_0.kind()) == spec_check_special(*p, *pat),
{
    if !matches!(p.rep_unit, RepetitionUnit::Never) {
        return Err(
            ValidationError::IncompatibleConstraint {
                rep_unit: p.rep_unit,
                constraint_type: "special_pattern".to_owned(),
                reason: "Special patterns require rep_unit to be None".to_owned(),
            },
        );
    }
    if let Some(c) = p.rep_per_unit {
        return Err(
            ValidationError::InvalidValue {
                field: "rep_per_unit".to_owned(),
                value: c.to_string(),
                reason: "Must be None for special patterns".to_owned(),
            },
        );
    }
    if p.constraints.day_constraint.is_some() || p.constraints.week_constraint.is_some()
        || p.constraints.month_constraint.is_some() || p.constraints.year_constraint.is_some() {
        return Err(
            ValidationError::ConflictingConstraints {
                constraint1: "special_pattern".to_owned(),
                constraint2: "regular constraints".to_owned(),
                reason: "Special patterns cannot be combined with regular constraints".to_owned(),
            },
        );
    }
    match pat {
        SpecialPattern::Custom(custom) => {
            if custom.dates.len() == 0 {
                return Err(
                    ValidationError::EmptyCollection {
                        field: "CustomDates".to_owned(),
                        reason: "Must contain at least one date".to_owned(),
                    },
                );
            }
            Ok(())
        },
        SpecialPattern::Unique(_) => Ok(()),
    }
}

/// Checks the timeframe ordering.
pub fn validate_timeframe(tf: &Option<(crate::cal::Timestamp, crate::cal::Timestamp)>) -> (r: Result<
    (),
    ValidationError,
>)
    requires
        tf is Some ==> (tf->0).0.wf() && (tf->0).1.wf(),
    ensures
        r is Ok <==> spec_check_timeframe(*tf) is None,
        r is Err ==> Some(r->Err_0.kind()) == spec_check_timeframe(*tf),
{
    if let Some((start, end)) = tf {
        if !start.lt(end) {
            return Err(
                ValidationError::InvalidTimeframe {
                    reason: "Start must be before end".to_owned(),
                },
            );
        }
    }
    Ok(())
}

/// Checks the occurrence timing settings against the repetition count.
pub fn validate_occurrence_settings(
    settings: &Option<OccurrenceTimingSettings>,
    rep_per_unit: Option<u8>,
) -> (r: Result<(), ValidationError>)
    ensures
        r is Ok <==> spec_check_occurrence(*settings, rep_per_unit) is None,
        r is Err ==> Some(r->Err_0.kind()) == spec_check_occurrence(*settings, rep_per_unit),
{
    let settings = match settings {
        None => {
            return Ok(());
        },
        Some(s) => s,
    };
    if let Some(duration) = settings.duration {
        if duration == 0 {
            return Err(
                ValidationError::InvalidValue {
                    field: "duration".to_owned(),
                    value: "0".to_owned(),
                    reason: "Duration must be at least 1 minute".to_owned(),
                },
            );
        }
        if duration > 1440 {
            return Err(
                ValidationError::OutOfRange {
                    field: "duration".to_owned(),
                    value: duration.to_string(),
                    min: "1".to_owned(),
                    max: "1440".to_owned(),
                },
            );
        }
    }
    if let (Some(not_before), Some(best_before)) = (settings.not_before, settings.best_before) {
        if not_before.sec >= best_before.sec {
            return Err(
                ValidationError::InvalidValue {
                    field: "not_before/best_before".to_owned(),
                    value: "times".to_owned(),
                    reason: "not_before must be earlier than best_before".to_owned(),
                },
            );
        }
    }
    if let Some(rep_settings) = &settings.rep_timing_settings {
        let rr = validate_rep_timing_settings(rep_settings, rep_per_unit);
        if rr.is_err() {
            return rr;
        }
    }
    Ok(())
}

/// Checks the per-repetition settings: non-empty, unique slots, each slot in
/// range with an ordered window.
fn validate_rep_timing_settings(
    rep_settings: &Vec<RepTimingSettings>,
    rep_per_unit: Option<u8>,
) -> (r: Result<(), ValidationError>)
    ensures
        r is Ok <==> (rep_settings@.len() > 0 && !has_dup(spec_rep_indices(rep_settings@))
            && spec_check_rep_items(rep_settings@, rep_per_unit, 0) is None),
        r is Err ==> Some(r->Err_0.kind()) == (if rep_settings@.len() == 0 {
            Some(ValidationErrorKind::EmptyCollection)
        } else if has_dup(spec_rep_indices(rep_settings@)) {
            Some(ValidationErrorKind::DuplicateValues)
        } else {
            spec_check_rep_items(rep_settings@, rep_per_unit, 0)
        }),
{
    if rep_settings.len() == 0 {
        return Err(
            ValidationError::EmptyCollection {
                field: "rep_timing_settings".to_owned(),
                reason: "If specified, must contain at least one RepTimingSettings".to_owned(),
            },
        );
    }
    if has_dup_rep_index(rep_settings) {
        return Err(
            ValidationError::DuplicateValues {
                field: "rep_timing_settings.rep_index".to_owned(),
                reason: "Duplicate rep_index".to_owned(),
            },
        );
    }
    let mut i: usize = 0;
    while i < rep_settings.len()
        invariant
            0 <= i <= rep_settings@.len(),
            rep_settings@.len() > 0,
            !has_dup(spec_rep_indices(rep_settings@)),
            spec_check_rep_items(rep_settings@, rep_per_unit, 0) == spec_check_rep_items(
                rep_settings@,
                rep_per_unit,
                i as int,
            ),
        decreases rep_settings@.len() - i,
    {
        let rep = &rep_settings[i];
        if let Some(count) = rep_per_unit {
            if rep.rep_index >= count {
                let top: u8 = if count == 0 {
                    0
                } else {
                    count - 1
                };
                return Err(
                    ValidationError::OutOfRange {
                        field: "rep_timing_settings.rep_index".to_owned(),
                        value: rep.rep_index.to_string(),
                        min: "0".to_owned(),
                        max: top.to_string(),
                    },
                );
            }
        }
        if let (Some(not_before), Some(best_before)) = (rep.not_before, rep.best_before) {
            if not_before.sec >= best_before.sec {
                return Err(
                    ValidationError::InvalidValue {
                        field: "rep_timing_settings".to_owned(),
                        value: "times".to_owned(),
                        reason: "not_before must be earlier than best_before".to_owned(),
                    },
                );
            }
        }
        i = i + 1;
    }
    Ok(())
}

/// Checks a whole specification: the first failed check wins. `Ok` exactly
/// when the verdict `spec_validate` is clean, and any error's variant
/// matches the verdict.
pub fn validate_periodicity(p: &Periodicity) -> (r: Result<(), ValidationError>)
    requires
        p.dates_wf(),
    ensures
        r is Ok <==> spec_valid(*p),
        r is Err ==> Some(r->Err_0.kind()) == spec_validate(*p),
{
    if let Some(pattern) = &p.special_pattern {
        return validate_special_pattern(p, pattern);
    }
    let rr = validate_repetition(p);
    if rr.is_err() {
        return rr;
    }
    let rr = validate_constraints(&p.constraints);
    if rr.is_err() {
        return rr;
    }
    let rr = validate_constraint_compatibility(p);
    if rr.is_err() {
        return rr;
    }
    let rr = validate_timeframe(&p.timeframe);
    if rr.is_err() {
        return rr;
    }
    let rr = validate_occurrence_settings(&p.occurrence_settings, p.rep_per_unit);
    if rr.is_err() {
        return rr;
    }
    Ok(())
}

impl Periodicity {
    /// Every instant the specification carries is well-formed. Instants
    /// built through `Timestamp::from_ymd_hms` always are; this only rules
    /// out hand-assembled field values that name no real date.
    pub open spec fn dates_wf(self) -> bool {
        &&& (self.timeframe is Some ==> (self.timeframe->0).0.wf() && (self.timeframe->0).1.wf())
        &&& (self.reference_date is Some ==> self.reference_date->0.wf())
        &&& match self.special_pattern {
            Some(SpecialPattern::Custom(c)) => forall|i: int|
                0 <= i < c.dates@.len() ==> (#[trigger] c.dates@[i]).wf(),
            Some(SpecialPattern::Unique(u)) => u.date.wf(),
            None => true,
        }
    }

    /// Validates the whole specification; the entry point for domain
    /// validation.
    pub fn validate(&self) -> (r: Result<(), ValidationError>)
        requires
            self.dates_wf(),
        ensures
            r is Ok <==> spec_valid(*self),
            r is Err ==> Some(r->Err_0.kind()) == spec_validate(*self),
    {
        validate_periodicity(self)
    }
}

} // verus!
