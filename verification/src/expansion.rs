//! The template expansion engine: turns a weekly `ScheduleTemplate` and a
//! concrete instant range into an ordered, non-overlapping sequence of
//! `TimeBlock`s.
//!
//! At any instant covered by several rules the strictly higher priority
//! wins; at equal priority the more restrictive availability wins
//! (unavailable beats busy-but-flexible beats available); at equal priority
//! and restrictiveness the rule listed earlier in the template wins.
//! Instants covered by no rule produce no block: the output omits
//! uncovered intervals rather than inventing a default availability.
//! Adjacent output with identical attributes is merged into single blocks,
//! and the output splits at every attribute boundary.

use vstd::prelude::*;
use vstd::arithmetic::div_mod::{
    lemma_div_is_ordered, lemma_fundamental_div_mod, lemma_fundamental_div_mod_converse,
};
use crate::cal::{Date, Timestamp, Weekday};
use crate::schedule::{
    AvailabilityKind, CapabilitySet, LocationConstraint, RecurringRule, ScheduleTemplate,
    TimeBlock, UnavailableReason,
};
use crate::location::{spec_same_location, Location};

verus! {

// ────────────────────────────────────────────────────────────────────
// When a rule covers an instant.
// ────────────────────────────────────────────────────────────────────

/// The weekday of day number `day` (days since January 1 of year 1, which
/// was a Monday).
pub open spec fn spec_weekday_of_day(day: int) -> Weekday {
    Weekday::spec_from_index0(day % 7)
}

/// Whether day number `dd` of a rule's weekday set reaches instant `t`: the
/// rule's interval starts at `dd` plus its start time and ends the same day
/// at its end time, or the next day for an overnight rule.
pub open spec fn spec_day_contributes(r: RecurringRule, dd: int, t: int) -> bool {
    &&& r.days@.contains(spec_weekday_of_day(dd))
    &&& dd * 86400 + r.start.sec <= t
    &&& t < (if r.spec_is_overnight() {
        (dd + 1) * 86400 + r.end.sec
    } else {
        dd * 86400 + r.end.sec
    })
}

/// Whether the rule covers the instant `t` (in seconds since the epoch):
/// either `t`'s own day is one of the rule's days and `t`'s time of day
/// lies in the rule's span, or the rule is overnight, the previous day is
/// one of the rule's days, and `t` lies before the rule's end.
pub open spec fn spec_rule_covers(r: RecurringRule, t: int) -> bool {
    let day = t / 86400;
    let tod = t % 86400;
    if r.spec_is_overnight() {
        ||| (r.days@.contains(spec_weekday_of_day(day)) && tod >= r.start.sec)
        ||| (day >= 1 && r.days@.contains(spec_weekday_of_day(day - 1)) && tod < r.end.sec)
    } else {
        r.days@.contains(spec_weekday_of_day(day)) && r.start.sec <= tod < r.end.sec
    }
}

/// Splits an instant into its day number and time of day.
proof fn lemma_day_split(t: int, dd: int)
    requires
        dd * 86400 <= t < (dd + 1) * 86400,
    ensures
        t / 86400 == dd,
        t % 86400 == t - dd * 86400,
{
    lemma_fundamental_div_mod_converse(t, 86400, dd, t - dd * 86400);
}

/// A day's contribution is sound: any instant it reaches is covered by the
/// rule.
proof fn lemma_contribution_covers(r: RecurringRule, dd: int, t: int)
    requires
        r.wf(),
        dd >= 0,
        spec_day_contributes(r, dd, t),
    ensures
        spec_rule_covers(r, t),
{
    if r.spec_is_overnight() {
        if t < (dd + 1) * 86400 {
            lemma_day_split(t, dd);
        } else {
            lemma_day_split(t, dd + 1);
        }
    } else {
        lemma_day_split(t, dd);
    }
}

/// Coverage comes from a day: a covered instant is reached by its own day's
/// contribution or, for an overnight rule, by the previous day's.
proof fn lemma_cover_from_day(r: RecurringRule, t: int)
    requires
        r.wf(),
        t >= 0,
        spec_rule_covers(r, t),
    ensures
        spec_day_contributes(r, t / 86400, t) || (t / 86400 >= 1 && spec_day_contributes(
            r,
            t / 86400 - 1,
            t,
        )),
{
    let day = t / 86400;
    lemma_fundamental_div_mod(t, 86400);
    vstd::arithmetic::div_mod::lemma_mod_pos_bound(t, 86400);
    lemma_div_is_ordered(0, t, 86400);
    if r.spec_is_overnight() {
        if r.days@.contains(spec_weekday_of_day(day)) && t % 86400 >= r.start.sec {
            assert(spec_day_contributes(r, day, t));
        } else {
            assert(day >= 1 && r.days@.contains(spec_weekday_of_day(day - 1)) && t % 86400
                < r.end.sec);
            assert(spec_day_contributes(r, day - 1, t));
        }
    } else {
        assert(spec_day_contributes(r, day, t));
    }
}

// ────────────────────────────────────────────────────────────────────
// The winning rule at an instant.
// ────────────────────────────────────────────────────────────────────

/// Whether rule `a` strictly beats rule `b` regardless of position: higher
/// priority, or equal priority and more restrictive availability.
pub open spec fn spec_strictly_better(a: RecurringRule, b: RecurringRule) -> bool {
    ||| a.priority > b.priority
    ||| (a.priority == b.priority && a.availability.spec_restrictiveness()
        > b.availability.spec_restrictiveness())
}

/// Whether the rule at position `j` is preferred to the rule at position
/// `k`: it strictly beats it, or neither beats the other and `j` comes
/// first.
pub open spec fn spec_preferred(rules: Seq<RecurringRule>, j: int, k: int) -> bool {
    ||| spec_strictly_better(rules[j], rules[k])
    ||| (!spec_strictly_better(rules[k], rules[j]) && j <= k)
}

/// The winning rule position at instant `t` among the first `n` rules, if
/// any covers it.
pub open spec fn spec_best_upto(rules: Seq<RecurringRule>, t: int, n: int) -> Option<int>
    decreases n,
{
    if n <= 0 {
        None
    } else {
        let prev = spec_best_upto(rules, t, n - 1);
        if spec_rule_covers(rules[n - 1], t) {
            match prev {
                None => Some(n - 1),
                Some(j) => if spec_strictly_better(rules[n - 1], rules[j]) {
                    Some(n - 1)
                } else {
                    Some(j)
                },
            }
        } else {
            prev
        }
    }
}

/// The rule that governs instant `t`, if any rule covers it.
pub open spec fn spec_winner(rules: Seq<RecurringRule>, t: int) -> Option<int> {
    spec_best_upto(rules, t, rules.len() as int)
}

/// What the winner is: it covers the instant and is preferred to every
/// rule that covers it; and if nothing covers the instant there is no
/// winner.
pub proof fn lemma_winner_characterization(rules: Seq<RecurringRule>, t: int, n: int)
    requires
        0 <= n <= rules.len(),
    ensures
        match spec_best_upto(rules, t, n) {
            None => forall|k: int| 0 <= k < n ==> !spec_rule_covers(#[trigger] rules[k], t),
            Some(j) => 0 <= j < n && spec_rule_covers(rules[j], t) && forall|k: int|
                0 <= k < n && spec_rule_covers(#[trigger] rules[k], t) ==> spec_preferred(
                    rules,
                    j,
                    k,
                ),
        },
    decreases n,
{
    if n > 0 {
        lemma_winner_characterization(rules, t, n - 1);
    }
}

/// The winner is the unique covering position preferred to all covering
/// positions.
pub proof fn lemma_winner_unique(rules: Seq<RecurringRule>, t: int, k0: int)
    requires
        0 <= k0 < rules.len(),
        spec_rule_covers(rules[k0], t),
        forall|k: int|
            0 <= k < rules.len() && spec_rule_covers(#[trigger] rules[k], t) ==> spec_preferred(
                rules,
                k0,
                k,
            ),
    ensures
        spec_winner(rules, t) == Some(k0),
{
    lemma_winner_characterization(rules, t, rules.len() as int);
    let j = spec_winner(rules, t)->0;
    assert(spec_preferred(rules, j, k0));
    assert(spec_preferred(rules, k0, j));
}

// ────────────────────────────────────────────────────────────────────
// Attribute equality at the level the matcher observes (string contents,
// not string identity).
// ────────────────────────────────────────────────────────────────────

/// Whether two unavailability reasons read the same.
pub open spec fn spec_same_reason(a: UnavailableReason, b: UnavailableReason) -> bool {
    match (a, b) {
        (UnavailableReason::Sleep, UnavailableReason::Sleep) => true,
        (UnavailableReason::Work, UnavailableReason::Work) => true,
        (UnavailableReason::Appointment, UnavailableReason::Appointment) => true,
        (UnavailableReason::Focus, UnavailableReason::Focus) => true,
        (UnavailableReason::Other(x), UnavailableReason::Other(y)) => x@ == y@,
        _ => false,
    }
}

/// Whether two availability kinds read the same.
pub open spec fn spec_same_availability(a: AvailabilityKind, b: AvailabilityKind) -> bool {
    match (a, b) {
        (AvailabilityKind::Unavailable(x), AvailabilityKind::Unavailable(y)) => spec_same_reason(
            x,
            y,
        ),
        (AvailabilityKind::BusyButFlexible, AvailabilityKind::BusyButFlexible) => true,
        (AvailabilityKind::Available, AvailabilityKind::Available) => true,
        _ => false,
    }
}

/// Whether two location constraints read the same.
pub open spec fn spec_same_loc_constraint(a: LocationConstraint, b: LocationConstraint) -> bool {
    match (a, b) {
        (LocationConstraint::Any, LocationConstraint::Any) => true,
        (LocationConstraint::MustBeKnown, LocationConstraint::MustBeKnown) => true,
        (LocationConstraint::MustBeUnknown, LocationConstraint::MustBeUnknown) => true,
        (LocationConstraint::MustBeOneOf(x), LocationConstraint::MustBeOneOf(y)) => x@.len()
            == y@.len() && forall|i: int|
            0 <= i < x@.len() ==> spec_same_location(#[trigger] x@[i], y@[i]),
        _ => false,
    }
}

/// Whether two labels read the same.
pub open spec fn spec_same_label(a: Option<String>, b: Option<String>) -> bool {
    match (a, b) {
        (Some(x), Some(y)) => x@ == y@,
        (None, None) => true,
        _ => false,
    }
}

/// Whether a block carries the attributes of the rule: availability,
/// capabilities, location constraint, label and priority all read the
/// same.
pub open spec fn spec_block_from_rule(b: TimeBlock, r: RecurringRule) -> bool {
    &&& spec_same_availability(b.availability, r.availability)
    &&& b.capabilities == r.capabilities
    &&& spec_same_loc_constraint(b.location_constraint, r.location_constraint)
    &&& spec_same_label(b.label, r.label)
    &&& b.priority == r.priority
}

/// Every instant of the block has a winning rule whose attributes the
/// block carries.
pub open spec fn block_governed(rules: Seq<RecurringRule>, b: TimeBlock) -> bool {
    forall|t: int|
        b.start.spec_epoch_sec() <= t < b.end.spec_epoch_sec() ==> (#[trigger] spec_winner(
            rules,
            t,
        )) is Some && spec_block_from_rule(b, rules[spec_winner(rules, t)->0])
}

/// Whether two blocks carry the same attributes.
pub open spec fn spec_same_attrs(a: TimeBlock, b: TimeBlock) -> bool {
    &&& spec_same_availability(a.availability, b.availability)
    &&& a.capabilities == b.capabilities
    &&& spec_same_loc_constraint(a.location_constraint, b.location_constraint)
    &&& spec_same_label(a.label, b.label)
    &&& a.priority == b.priority
}

/// Copies an unavailability reason.
fn copy_reason(a: &UnavailableReason) -> (r: UnavailableReason)
    ensures
        r == *a,
{
    match a {
        UnavailableReason::Sleep => UnavailableReason::Sleep,
        UnavailableReason::Work => UnavailableReason::Work,
        UnavailableReason::Appointment => UnavailableReason::Appointment,
        UnavailableReason::Focus => UnavailableReason::Focus,
        UnavailableReason::Other(s) => UnavailableReason::Other(s.clone()),
    }
}

/// Copies an availability kind.
fn copy_availability(a: &AvailabilityKind) -> (r: AvailabilityKind)
    ensures
        r == *a,
{
    match a {
        AvailabilityKind::Unavailable(reason) => AvailabilityKind::Unavailable(
            copy_reason(reason),
        ),
        AvailabilityKind::BusyButFlexible => AvailabilityKind::BusyButFlexible,
        AvailabilityKind::Available => AvailabilityKind::Available,
    }
}

/// Copies a location constraint; the copy reads the same.
fn copy_loc_constraint(a: &LocationConstraint) -> (r: LocationConstraint)
    ensures
        spec_same_loc_constraint(r, *a),
{
    match a {
        LocationConstraint::Any => LocationConstraint::Any,
        LocationConstraint::MustBeKnown => LocationConstraint::MustBeKnown,
        LocationConstraint::MustBeUnknown => LocationConstraint::MustBeUnknown,
        LocationConstraint::MustBeOneOf(locs) => {
            let mut out: Vec<Location> = Vec::new();
            let mut i: usize = 0;
            while i < locs.len()
                invariant
                    0 <= i <= locs@.len(),
                    out@ == locs@.subrange(0, i as int),
                decreases locs@.len() - i,
            {
                out.push(locs[i].duplicate());
                proof {
                    assert(out@ =~= locs@.subrange(0, i as int + 1));
                }
                i = i + 1;
            }
            proof {
                assert(locs@.subrange(0, locs@.len() as int) == locs@);
            }
            LocationConstraint::MustBeOneOf(out)
        },
    }
}

/// Copies a label.
fn copy_label(a: &Option<String>) -> (r: Option<String>)
    ensures
        r == *a,
{
    match a {
        Some(s) => Some(s.clone()),
        None => None,
    }
}

/// Whether two unavailability reasons read the same.
fn same_reason(a: &UnavailableReason, b: &UnavailableReason) -> (r: bool)
    ensures
        r == spec_same_reason(*a, *b),
{
    match (a, b) {
        (UnavailableReason::Sleep, UnavailableReason::Sleep) => true,
        (UnavailableReason::Work, UnavailableReason::Work) => true,
        (UnavailableReason::Appointment, UnavailableReason::Appointment) => true,
        (UnavailableReason::Focus, UnavailableReason::Focus) => true,
        (UnavailableReason::Other(x), UnavailableReason::Other(y)) => *x == *y,
        _ => false,
    }
}

/// Whether two availability kinds read the same.
fn same_availability(a: &AvailabilityKind, b: &AvailabilityKind) -> (r: bool)
    ensures
        r == spec_same_availability(*a, *b),
{
    match (a, b) {
        (AvailabilityKind::Unavailable(x), AvailabilityKind::Unavailable(y)) => same_reason(x, y),
        (AvailabilityKind::BusyButFlexible, AvailabilityKind::BusyButFlexible) => true,
        (AvailabilityKind::Available, AvailabilityKind::Available) => true,
        _ => false,
    }
}

/// Whether two location constraints read the same.
fn same_loc_constraint(a: &LocationConstraint, b: &LocationConstraint) -> (r: bool)
    ensures
        r == spec_same_loc_constraint(*a, *b),
{
    match (a, b) {
        (LocationConstraint::Any, LocationConstraint::Any) => true,
        (LocationConstraint::MustBeKnown, LocationConstraint::MustBeKnown) => true,
        (LocationConstraint::MustBeUnknown, LocationConstraint::MustBeUnknown) => true,
        (LocationConstraint::MustBeOneOf(x), LocationConstraint::MustBeOneOf(y)) => {
            if x.len() != y.len() {
                return false;
            }
            let mut i: usize = 0;
            let mut all: bool = true;
            while i < x.len()
                invariant
                    0 <= i <= x@.len(),
                    x@.len() == y@.len(),
                    all == forall|p: int|
                        0 <= p < i ==> spec_same_location(#[trigger] x@[p], y@[p]),
                decreases x@.len() - i,
            {
                if !x[i].same_as(&y[i]) {
                    all = false;
                }
                i = i + 1;
            }
            all
        },
        _ => false,
    }
}

/// Whether two labels read the same.
fn same_label(a: &Option<String>, b: &Option<String>) -> (r: bool)
    ensures
        r == spec_same_label(*a, *b),
{
    match (a, b) {
        (Some(x), Some(y)) => *x == *y,
        (None, None) => true,
        _ => false,
    }
}

/// Whether two blocks carry the same attributes.
fn same_attrs(a: &TimeBlock, b: &TimeBlock) -> (r: bool)
    ensures
        r == spec_same_attrs(*a, *b),
{
    same_availability(&a.availability, &b.availability) && a.capabilities == b.capabilities
        && same_loc_constraint(&a.location_constraint, &b.location_constraint) && same_label(
        &a.label,
        &b.label,
    ) && a.priority == b.priority
}

// ────────────────────────────────────────────────────────────────────
// Candidate intervals.
// ────────────────────────────────────────────────────────────────────

/// One rule's clipped contribution on one day.
struct Cand {
    start: Timestamp,
    end: Timestamp,
    idx: usize,
}

/// A sound candidate: well-formed, inside the range, and covered by its
/// rule at every instant.
spec fn cand_ok(c: Cand, rules: Seq<RecurringRule>, rs: int, re: int) -> bool {
    &&& c.start.wf()
    &&& c.end.wf()
    &&& 0 <= c.idx < rules.len()
    &&& rs <= c.start.spec_epoch_sec() < c.end.spec_epoch_sec() <= re
    &&& forall|t: int|
        c.start.spec_epoch_sec() <= t < c.end.spec_epoch_sec() ==> spec_rule_covers(
            rules[c.idx as int],
            t,
        )
}

/// Whether some candidate of rule `k` covers instant `t`.
spec fn covered_by(cands: Seq<Cand>, k: int, t: int) -> bool {
    exists|p: int|
        0 <= p < cands.len() && (#[trigger] cands[p]).idx == k && cands[p].start.spec_epoch_sec()
            <= t < cands[p].end.spec_epoch_sec()
}

/// Whatever a prefix of the candidates covers, the whole list covers.
proof fn lemma_covered_grow(c1: Seq<Cand>, c2: Seq<Cand>, k: int, t: int)
    requires
        c1.len() <= c2.len(),
        forall|p: int| 0 <= p < c1.len() ==> c2[p] == c1[p],
        covered_by(c1, k, t),
    ensures
        covered_by(c2, k, t),
{
    let p = choose|p: int|
        0 <= p < c1.len() && (#[trigger] c1[p]).idx == k && c1[p].start.spec_epoch_sec() <= t
            < c1[p].end.spec_epoch_sec();
    assert(c2[p] == c1[p]);
}

/// Collects every rule's clipped contribution for every day whose interval
/// can touch the range, one candidate per rule and day.
#[verifier::loop_isolation(false)]
#[verifier::rlimit(100)]
fn collect_candidates(template: &ScheduleTemplate, range_start: &Timestamp, range_end: &Timestamp)
    -> (cands: Vec<Cand>)
    requires
        template.rules@.len() < 100_000,
        forall|i: int| 0 <= i < template.rules@.len() ==> (#[trigger] template.rules@[i]).wf(),
        range_start.wf(),
        range_end.wf(),
        range_start.spec_epoch_sec() < range_end.spec_epoch_sec(),
        range_end.date.year < crate::cal::MAX_YEAR,
    ensures
        forall|p: int|
            0 <= p < cands@.len() ==> cand_ok(
                #[trigger] cands@[p],
                template.rules@,
                range_start.spec_epoch_sec(),
                range_end.spec_epoch_sec(),
            ),
        forall|k: int, t: int|
            0 <= k < template.rules@.len() && range_start.spec_epoch_sec() <= t
                < range_end.spec_epoch_sec() && #[trigger] spec_rule_covers(template.rules@[k], t) ==> covered_by(cands@, k, t),
{
    let ghost rs: int = range_start.spec_epoch_sec();
    let ghost re: int = range_end.spec_epoch_sec();
    let rules: &Vec<RecurringRule> = &template.rules;
    let mut cands: Vec<Cand> = Vec::new();

    proof {
        crate::cal::lemma_day_index_bounds(range_start.date);
        crate::cal::lemma_day_index_bounds(range_end.date);
    }
    let first_day: Date = if range_start.date.year == crate::cal::MIN_YEAR
        && range_start.date.month == 1 && range_start.date.day == 1 {
        range_start.date
    } else {
        range_start.date.prev_day()
    };
    let last_index: i64 = range_end.date.day_index();
    let mut d: Date = first_day;
    let mut d_index: i64 = d.day_index();
    let ghost first_index: int = first_day.spec_day_index();

    while d_index <= last_index
        invariant
            d.wf(),
            d_index <= last_index ==> d_index == d.spec_day_index(),
            first_index <= d_index <= last_index + 1,
            forall|p: int| 0 <= p < cands@.len() ==> cand_ok(#[trigger] cands@[p], rules@, rs, re),
            forall|k: int, dd: int, t: int|
                0 <= k < rules@.len() && first_index <= dd < d_index && rs <= t < re
                    && #[trigger] spec_day_contributes(rules@[k], dd, t)
                    ==> covered_by(cands@, k, t),
        decreases last_index - d_index + 1,
    {
        let wd: Weekday = d.weekday();
        let mut j: usize = 0;
        while j < rules.len()
            invariant
                0 <= j <= rules@.len(),
                d.wf(),
                d_index == d.spec_day_index(),
                first_index <= d_index <= last_index,
                wd == d.spec_weekday(),
                forall|p: int|
                    0 <= p < cands@.len() ==> cand_ok(#[trigger] cands@[p], rules@, rs, re),
                forall|k: int, dd: int, t: int|
                    0 <= k < rules@.len() && first_index <= dd < d_index && rs <= t < re
                        && #[trigger] spec_day_contributes(rules@[k], dd, t)
                        ==> covered_by(cands@, k, t),
                forall|k: int, t: int|
                    0 <= k < j && rs <= t < re && #[trigger] spec_day_contributes(rules@[k], d_index as int, t) ==> covered_by(cands@, k, t),
            decreases rules@.len() - j,
        {
            let ghost old_cands: Seq<Cand> = cands@;
            let rule: &RecurringRule = &rules[j];
            let mut applies: bool = false;
            let mut q: usize = 0;
            while q < rule.days.len()
                invariant
                    0 <= q <= rule.days@.len(),
                    rule == rules@[j as int],
                    wd == d.spec_weekday(),
                    applies == exists|p: int| 0 <= p < q && rule.days@[p] == wd,
                decreases rule.days@.len() - q,
            {
                if rule.days[q] == wd {
                    applies = true;
                }
                q = q + 1;
            }
            if applies {
                assert(rule.days@.contains(d.spec_weekday()));
                let cand_start: Timestamp = Timestamp { date: d, sec: rule.start.sec };
                let cand_end: Timestamp = if rule.is_overnight() {
                    let nd: Date = d.next_day();
                    Timestamp { date: nd, sec: rule.end.sec }
                } else {
                    Timestamp { date: d, sec: rule.end.sec }
                };
                proof {
                    assert(d.spec_weekday() == spec_weekday_of_day(d_index as int));
                }
                let cs: Timestamp = if cand_start.lt(range_start) {
                    *range_start
                } else {
                    cand_start
                };
                let ce: Timestamp = if range_end.lt(&cand_end) {
                    *range_end
                } else {
                    cand_end
                };
                if cs.lt(&ce) {
                    let c = Cand { start: cs, end: ce, idx: j };
                    proof {
                        assert forall|t: int|
                            cs.spec_epoch_sec() <= t < ce.spec_epoch_sec() implies spec_rule_covers(
                            rules@[j as int],
                            t,
                        ) by {
                            assert(spec_day_contributes(rules@[j as int], d_index as int, t));
                            lemma_contribution_covers(rules@[j as int], d_index as int, t);
                        }
                    }
                    cands.push(c);
                }
                proof {
                    assert forall|k: int, dd: int, t: int|
                        0 <= k < rules@.len() && first_index <= dd < d_index && rs <= t < re
                            && #[trigger] spec_day_contributes(rules@[k], dd, t) implies covered_by(cands@, k, t) by {
                        lemma_covered_grow(old_cands, cands@, k, t);
                    }
                    assert forall|k: int, t: int|
                        0 <= k < j + 1 && rs <= t < re && #[trigger] spec_day_contributes(rules@[k], d_index as int, t) implies covered_by(cands@, k, t) by {
                        if k < j {
                            lemma_covered_grow(old_cands, cands@, k, t);
                        } else {
                            // This day's contribution of rule j clipped to
                            // the range is exactly the candidate pushed.
                            let p = cands@.len() - 1;
                            assert(cands@[p].idx == j);
                        }
                    }
                }
            } else {
                proof {
                    assert forall|k: int, t: int|
                        0 <= k < j + 1 && rs <= t < re && #[trigger] spec_day_contributes(rules@[k], d_index as int, t) implies covered_by(cands@, k, t) by {
                        if k == j {
                            assert(rules@[k].days@.contains(spec_weekday_of_day(d_index as int)));
                            assert(d.spec_weekday() == spec_weekday_of_day(d_index as int));
                            let p = choose|p: int|
                                0 <= p < rules@[k].days@.len() && rules@[k].days@[p]
                                    == spec_weekday_of_day(d_index as int);
                            assert(false);
                        }
                    }
                }
            }
            j = j + 1;
        }
        if d_index == last_index {
            d_index = d_index + 1;
        } else {
            proof {
                if d.year == crate::cal::MAX_YEAR && d.month == 12 && d.day == 31 {
                    crate::cal::lemma_day_index_strictly_monotone(range_end.date, d);
                }
            }
            let nd = d.next_day();
            d = nd;
            d_index = d_index + 1;
        }
    }
    proof {
        assert forall|k: int, t: int|
            0 <= k < rules@.len() && rs <= t < re && #[trigger] spec_rule_covers(rules@[k], t) implies covered_by(cands@, k, t) by {
            lemma_cover_from_day(rules@[k], t);
            let day = t / 86400;
            // The instant's day lies between the range's first and last
            // days, so both possible contributing days were scanned.
            assert(rs <= t);
            lemma_div_is_ordered(rs, t, 86400);
            lemma_div_is_ordered(t, re - 1, 86400);
            assert(range_start.spec_epoch_sec() == range_start.date.spec_day_index() * 86400
                + range_start.sec);
            lemma_day_split(rs, range_start.date.spec_day_index());
            lemma_day_split(re - 1 - (range_end.sec as int), range_end.date.spec_day_index() - 1);
            assert(re == range_end.date.spec_day_index() * 86400 + range_end.sec);
            lemma_day_split(re, range_end.date.spec_day_index());
            assert(day <= last_index) by {
                if day > last_index {
                    assert(t >= day * 86400) by {
                        lemma_fundamental_div_mod(t, 86400);
                        vstd::arithmetic::div_mod::lemma_mod_pos_bound(t, 86400);
                    }
                    assert(day * 86400 >= (last_index + 1) * 86400) by (nonlinear_arith)
                        requires
                            day >= last_index + 1,
                    ;
                }
            }
            assert(day >= range_start.date.spec_day_index());
        }
    }
    cands
}

// ────────────────────────────────────────────────────────────────────
// Boundary points.
// ────────────────────────────────────────────────────────────────────

/// Sorts instants ascending and removes duplicates: the result is strictly
/// increasing and holds exactly the given instants.
fn sort_unique_timestamps(v: Vec<Timestamp>) -> (out: Vec<Timestamp>)
    requires
        forall|i: int| 0 <= i < v@.len() ==> (#[trigger] v@[i]).wf(),
    ensures
        forall|i: int| 0 <= i < out@.len() ==> (#[trigger] out@[i]).wf(),
        forall|i: int, j: int|
            0 <= i < j < out@.len() ==> out@[i].spec_epoch_sec() < out@[j].spec_epoch_sec(),
        forall|t: Timestamp| #[trigger] out@.contains(t) <==> v@.contains(t),
{
    let ghost all: Seq<Timestamp> = v@;
    let mut out: Vec<Timestamp> = Vec::new();
    let mut k: usize = 0;
    while k < v.len()
        invariant
            0 <= k <= all.len(),
            v@ == all,
            forall|i: int| 0 <= i < all.len() ==> (#[trigger] all[i]).wf(),
            forall|i: int| 0 <= i < out@.len() ==> (#[trigger] out@[i]).wf(),
            forall|i: int, j: int|
                0 <= i < j < out@.len() ==> out@[i].spec_epoch_sec() < out@[j].spec_epoch_sec(),
            forall|t: Timestamp| #[trigger]
                out@.contains(t) ==> all.subrange(0, k as int).contains(t),
            forall|t: Timestamp| #[trigger]
                all.subrange(0, k as int).contains(t) ==> out@.contains(t),
        decreases all.len() - k,
    {
        let x: Timestamp = v[k];
        let mut i: usize = 0;
        while i < out.len() && out[i].lt(&x)
            invariant
                0 <= i <= out@.len(),
                x.wf(),
                forall|q: int| 0 <= q < out@.len() ==> (#[trigger] out@[q]).wf(),
                forall|q: int|
                    0 <= q < i ==> (#[trigger] out@[q]).spec_epoch_sec() < x.spec_epoch_sec(),
            decreases out@.len() - i,
        {
            i = i + 1;
        }
        let is_dup: bool = if i < out.len() {
            out[i].epoch_sec() == x.epoch_sec()
        } else {
            false
        };
        if is_dup {
            proof {
                crate::cal::lemma_epoch_sec_injective(out@[i as int], x);
                assert(out@.contains(x));
                lemma_ts_contains_extend(all, k as int, x, out@);
            }
        } else {
            let ghost before: Seq<Timestamp> = out@;
            out.insert(i, x);
            proof {
                let ii = i as int;
                assert(out@ == before.insert(ii, x));
                before.insert_ensures(ii, x);
                assert forall|j: int| 0 <= j < out@.len() implies #[trigger] out@[j] == (if j < ii {
                    before[j]
                } else if j == ii {
                    x
                } else {
                    before[j - 1]
                }) by {
                    if j > ii {
                        let jj = j - 1;
                        assert(before.insert(ii, x)[jj + 1] == before[jj]);
                    }
                }
                assert forall|t: Timestamp| #[trigger] out@.contains(t) implies all.subrange(
                    0,
                    k as int + 1,
                ).contains(t) by {
                    let q = choose|q: int| 0 <= q < out@.len() && #[trigger] out@[q] == t;
                    if q == ii {
                        assert(all.subrange(0, k as int + 1)[k as int] == x);
                    } else {
                        if q < ii {
                            assert(before[q] == t);
                        } else {
                            assert(before[q - 1] == t);
                        }
                        assert(before.contains(t));
                        assert(all.subrange(0, k as int).contains(t));
                        lemma_ts_subrange_widen(all, k as int, t);
                    }
                }
                assert forall|t: Timestamp| #[trigger]
                    all.subrange(0, k as int + 1).contains(t) implies out@.contains(t) by {
                    let q = choose|q: int|
                        0 <= q < k as int + 1 && #[trigger] all.subrange(0, k as int + 1)[q] == t;
                    if q == k as int {
                        assert(out@[ii] == x);
                        assert(out@.contains(x));
                    } else {
                        assert(all.subrange(0, k as int)[q] == t);
                        assert(all.subrange(0, k as int).contains(t));
                        assert(before.contains(t));
                        let p = choose|p: int| 0 <= p < before.len() && #[trigger] before[p] == t;
                        if p < ii {
                            assert(out@[p] == t);
                        } else {
                            assert(out@[p + 1] == t);
                        }
                    }
                }
            }
        }
        k = k + 1;
    }
    proof {
        assert(all.subrange(0, all.len() as int) == all);
    }
    out
}

/// Extending the scanned prefix by an element already present keeps the
/// contents equal.
proof fn lemma_ts_contains_extend(all: Seq<Timestamp>, k: int, x: Timestamp, out: Seq<Timestamp>)
    requires
        0 <= k < all.len(),
        all[k] == x,
        out.contains(x),
        forall|t: Timestamp| #[trigger] out.contains(t) ==> all.subrange(0, k).contains(t),
        forall|t: Timestamp| #[trigger] all.subrange(0, k).contains(t) ==> out.contains(t),
    ensures
        forall|t: Timestamp| #[trigger] out.contains(t) ==> all.subrange(0, k + 1).contains(t),
        forall|t: Timestamp| #[trigger] all.subrange(0, k + 1).contains(t) ==> out.contains(t),
{
    assert forall|t: Timestamp| #[trigger] out.contains(t) implies all.subrange(0, k + 1).contains(
        t,
    ) by {
        assert(all.subrange(0, k).contains(t));
        lemma_ts_subrange_widen(all, k, t);
    }
    assert forall|t: Timestamp| #[trigger] all.subrange(0, k + 1).contains(t) implies out.contains(
        t,
    ) by {
        let q = choose|q: int| 0 <= q < k + 1 && #[trigger] all.subrange(0, k + 1)[q] == t;
        if q == k {
            assert(t == x);
        } else {
            assert(all.subrange(0, k)[q] == t);
            assert(all.subrange(0, k).contains(t));
        }
    }
}

/// Whatever a prefix holds, a longer prefix holds too.
proof fn lemma_ts_subrange_widen(all: Seq<Timestamp>, k: int, t: Timestamp)
    requires
        0 <= k < all.len(),
        all.subrange(0, k).contains(t),
    ensures
        all.subrange(0, k + 1).contains(t),
{
    let q = choose|q: int| 0 <= q < k && #[trigger] all.subrange(0, k)[q] == t;
    assert(all.subrange(0, k + 1)[q] == t);
}

// ────────────────────────────────────────────────────────────────────
// The sweep.
// ────────────────────────────────────────────────────────────────────

/// Whether the candidate covers the instant.
spec fn cand_covers(c: Cand, t: int) -> bool {
    c.start.spec_epoch_sec() <= t < c.end.spec_epoch_sec()
}

/// Preference is transitive.
proof fn lemma_preferred_trans(rules: Seq<RecurringRule>, a: int, b: int, c: int)
    requires
        spec_preferred(rules, a, b),
        spec_preferred(rules, b, c),
    ensures
        spec_preferred(rules, a, c),
{
}

/// A block carrying the same attributes as one from a rule also carries
/// that rule's attributes.
proof fn lemma_attrs_trans(a: TimeBlock, b: TimeBlock, r: RecurringRule)
    requires
        spec_same_attrs(a, b),
        spec_block_from_rule(b, r),
    ensures
        spec_block_from_rule(a, r),
{
}

/// Between two adjacent boundary instants, a candidate whose endpoints are
/// boundary instants covers either the whole segment or none of it.
proof fn lemma_cand_stable(c: Cand, bounds: Seq<Timestamp>, m: int, t: int)
    requires
        forall|i: int, j: int|
            0 <= i < j < bounds.len() ==> bounds[i].spec_epoch_sec() < bounds[j].spec_epoch_sec(),
        bounds.contains(c.start),
        bounds.contains(c.end),
        0 <= m < bounds.len() - 1,
        bounds[m].spec_epoch_sec() <= t < bounds[m + 1].spec_epoch_sec(),
    ensures
        cand_covers(c, t) == cand_covers(c, bounds[m].spec_epoch_sec()),
{
    let u = bounds[m].spec_epoch_sec();
    let v = bounds[m + 1].spec_epoch_sec();
    let qs = choose|q: int| 0 <= q < bounds.len() && #[trigger] bounds[q] == c.start;
    let qe = choose|q: int| 0 <= q < bounds.len() && #[trigger] bounds[q] == c.end;
    assert(c.start.spec_epoch_sec() <= u || c.start.spec_epoch_sec() >= v) by {
        if qs <= m {
            if qs < m {
                assert(bounds[qs].spec_epoch_sec() < bounds[m].spec_epoch_sec());
            }
        } else {
            if qs > m + 1 {
                assert(bounds[m + 1].spec_epoch_sec() < bounds[qs].spec_epoch_sec());
            }
        }
    }
    assert(c.end.spec_epoch_sec() <= u || c.end.spec_epoch_sec() >= v) by {
        if qe <= m {
            if qe < m {
                assert(bounds[qe].spec_epoch_sec() < bounds[m].spec_epoch_sec());
            }
        } else {
            if qe > m + 1 {
                assert(bounds[m + 1].spec_epoch_sec() < bounds[qe].spec_epoch_sec());
            }
        }
    }
}

/// Two instants at which every rule's coverage agrees have the same
/// winner.
proof fn lemma_winner_same(rules: Seq<RecurringRule>, t1: int, t2: int, n: int)
    requires
        0 <= n <= rules.len(),
        forall|k: int|
            0 <= k < rules.len() ==> (spec_rule_covers(#[trigger] rules[k], t1)
                == spec_rule_covers(rules[k], t2)),
    ensures
        spec_best_upto(rules, t1, n) == spec_best_upto(rules, t2, n),
    decreases n,
{
    if n > 0 {
        lemma_winner_same(rules, t1, t2, n - 1);
    }
}

/// What the sweep needs of its inputs: a sorted boundary list spanning
/// the range, holding every candidate endpoint, with sound candidates
/// that together account for every covered instant of the range.
#[verifier::opaque]
spec fn sweep_env(
    rules: Seq<RecurringRule>,
    cands: Seq<Cand>,
    bounds: Seq<Timestamp>,
    rs: int,
    re: int,
) -> bool {
    &&& (forall|i: int| 0 <= i < bounds.len() ==> (#[trigger] bounds[i]).wf())
    &&& (forall|i: int, j: int|
        0 <= i < j < bounds.len() ==> bounds[i].spec_epoch_sec() < bounds[j].spec_epoch_sec())
    &&& (forall|i: int|
        0 <= i < bounds.len() ==> rs <= (#[trigger] bounds[i]).spec_epoch_sec() <= re)
    &&& (forall|p: int| 0 <= p < cands.len() ==> cand_ok(#[trigger] cands[p], rules, rs, re))
    &&& (forall|p: int| 0 <= p < cands.len() ==> bounds.contains((#[trigger] cands[p]).start))
    &&& (forall|p: int| 0 <= p < cands.len() ==> bounds.contains((#[trigger] cands[p]).end))
    &&& (forall|k: int, t: int|
        0 <= k < rules.len() && rs <= t < re && #[trigger] spec_rule_covers(rules[k], t)
            ==> covered_by(cands, k, t))
}

/// In a segment between adjacent boundaries where no candidate covers the
/// segment's start, no rule covers any instant, so none has a winner.
proof fn lemma_segment_no_winner(
    rules: Seq<RecurringRule>,
    cands: Seq<Cand>,
    bounds: Seq<Timestamp>,
    rs: int,
    re: int,
    m: int,
    t: int,
)
    requires
        sweep_env(rules, cands, bounds, rs, re),
        0 <= m < bounds.len() - 1,
        forall|q: int| 0 <= q < cands.len() ==> !cand_covers(#[trigger] cands[q], bounds[m].spec_epoch_sec()),
        bounds[m].spec_epoch_sec() <= t < bounds[m + 1].spec_epoch_sec(),
        rs <= t < re,
    ensures
        spec_winner(rules, t) is None,
{
    reveal(sweep_env);
    assert forall|k: int| 0 <= k < rules.len() implies !spec_rule_covers(
        #[trigger] rules[k],
        t,
    ) by {
        if spec_rule_covers(rules[k], t) {
            assert(covered_by(cands, k, t));
            let q = choose|q: int|
                0 <= q < cands.len() && (#[trigger] cands[q]).idx == k
                    && cands[q].start.spec_epoch_sec() <= t < cands[q].end.spec_epoch_sec();
            lemma_cand_stable(cands[q], bounds, m, t);
        }
    }
    lemma_winner_characterization(rules, t, rules.len() as int);
    if spec_winner(rules, t) is Some {
        let j = spec_winner(rules, t)->0;
    }
}

/// In a segment between adjacent boundaries whose start is covered best by
/// a candidate of rule `k0`, rule `k0` wins at every instant of the
/// segment.
proof fn lemma_segment_winner(
    rules: Seq<RecurringRule>,
    cands: Seq<Cand>,
    bounds: Seq<Timestamp>,
    rs: int,
    re: int,
    m: int,
    bp: int,
    t: int,
)
    requires
        sweep_env(rules, cands, bounds, rs, re),
        0 <= m < bounds.len() - 1,
        0 <= bp < cands.len(),
        cand_covers(cands[bp], bounds[m].spec_epoch_sec()),
        forall|q: int|
            0 <= q < cands.len() && cand_covers(#[trigger] cands[q], bounds[m].spec_epoch_sec())
                ==> spec_preferred(rules, cands[bp].idx as int, cands[q].idx as int),
        bounds[m].spec_epoch_sec() <= t < bounds[m + 1].spec_epoch_sec(),
        rs <= t < re,
        rs <= bounds[m].spec_epoch_sec() < re,
    ensures
        spec_winner(rules, t) == Some(cands[bp].idx as int),
{
    reveal(sweep_env);
    let uei = bounds[m].spec_epoch_sec();
    let k0 = cands[bp].idx as int;
    // The rule cover sets at t and at the segment start agree.
    assert forall|k: int| 0 <= k < rules.len() implies (spec_rule_covers(#[trigger] rules[k], t)
        == spec_rule_covers(rules[k], uei)) by {
        if spec_rule_covers(rules[k], t) {
            assert(covered_by(cands, k, t));
            let q = choose|q: int|
                0 <= q < cands.len() && (#[trigger] cands[q]).idx == k
                    && cands[q].start.spec_epoch_sec() <= t < cands[q].end.spec_epoch_sec();
            lemma_cand_stable(cands[q], bounds, m, t);
            assert(cand_covers(cands[q], uei));
        }
        if spec_rule_covers(rules[k], uei) {
            assert(covered_by(cands, k, uei));
            let q = choose|q: int|
                0 <= q < cands.len() && (#[trigger] cands[q]).idx == k
                    && cands[q].start.spec_epoch_sec() <= uei < cands[q].end.spec_epoch_sec();
            lemma_cand_stable(cands[q], bounds, m, t);
            assert(cand_covers(cands[q], t));
        }
    }
    // The winner at the segment start is rule k0: it covers the start and
    // is preferred to every rule that does.
    assert(spec_rule_covers(rules[k0], uei));
    assert forall|k: int|
        0 <= k < rules.len() && spec_rule_covers(#[trigger] rules[k], uei) implies spec_preferred(
        rules,
        k0,
        k,
    ) by {
        assert(covered_by(cands, k, uei));
        let q = choose|q: int|
            0 <= q < cands.len() && (#[trigger] cands[q]).idx == k && cands[q].start.spec_epoch_sec()
                <= uei < cands[q].end.spec_epoch_sec();
    }
    lemma_winner_unique(rules, uei, k0);
    lemma_winner_same(rules, t, uei, rules.len() as int);
}

/// Finds the candidate covering `u` whose rule wins there, if any covers
/// it.
#[verifier::loop_isolation(false)]
fn find_best_at(rules: &Vec<RecurringRule>, cands: &Vec<Cand>, u: &Timestamp) -> (best: Option<
    usize,
>)
    requires
        u.wf(),
        forall|p: int|
            0 <= p < cands@.len() ==> (#[trigger] cands@[p]).start.wf() && cands@[p].end.wf() && 0
                <= cands@[p].idx < rules@.len(),
    ensures
        best is None ==> forall|q: int|
            0 <= q < cands@.len() ==> !cand_covers(#[trigger] cands@[q], u.spec_epoch_sec()),
        best is Some ==> 0 <= best->0 < cands@.len() && cand_covers(
            cands@[best->0 as int],
            u.spec_epoch_sec(),
        ) && forall|q: int|
            0 <= q < cands@.len() && cand_covers(#[trigger] cands@[q], u.spec_epoch_sec())
                ==> spec_preferred(
                rules@,
                cands@[best->0 as int].idx as int,
                cands@[q].idx as int,
            ),
{
    let ue: i64 = u.epoch_sec();
    let ghost uei: int = ue as int;
    let mut best: Option<usize> = None;
    let mut p: usize = 0;
    while p < cands.len()
        invariant
            0 <= p <= cands@.len(),
            match best {
                None => forall|q: int| 0 <= q < p ==> !cand_covers(#[trigger] cands@[q], uei),
                Some(bp) => {
                    &&& 0 <= bp < p
                    &&& cand_covers(cands@[bp as int], uei)
                    &&& forall|q: int|
                        0 <= q < p && cand_covers(#[trigger] cands@[q], uei) ==> spec_preferred(
                            rules@,
                            cands@[bp as int].idx as int,
                            cands@[q].idx as int,
                        )
                },
            },
        decreases cands@.len() - p,
    {
        let c_start: i64 = cands[p].start.epoch_sec();
        let c_end: i64 = cands[p].end.epoch_sec();
        if c_start <= ue && ue < c_end {
            match best {
                None => {
                    best = Some(p);
                },
                Some(bp) => {
                    let ci: usize = cands[p].idx;
                    let bi: usize = cands[bp].idx;
                    let rc: &RecurringRule = &rules[ci];
                    let rb: &RecurringRule = &rules[bi];
                    let rc_restr: u8 = rc.availability.restrictiveness();
                    let rb_restr: u8 = rb.availability.restrictiveness();
                    let better: bool = rc.priority > rb.priority || (rc.priority == rb.priority
                        && rc_restr > rb_restr) || (rc.priority == rb.priority && rc_restr
                        == rb_restr && ci < bi);
                    if better {
                        proof {
                            assert forall|q: int|
                                0 <= q < p + 1 && cand_covers(#[trigger] cands@[q], uei)
                                    implies spec_preferred(
                                    rules@,
                                    cands@[p as int].idx as int,
                                    cands@[q].idx as int,
                                ) by {
                                if q < p {
                                    lemma_preferred_trans(
                                        rules@,
                                        cands@[p as int].idx as int,
                                        cands@[bp as int].idx as int,
                                        cands@[q].idx as int,
                                    );
                                }
                            }
                        }
                        best = Some(p);
                    }
                },
            }
        }
        p = p + 1;
    }
    best
}

/// After widening the last block across a segment governed by the same
/// rule whose attributes it already carries, every block is still
/// governed.
proof fn lemma_merge_governed(
    rules: Seq<RecurringRule>,
    newblocks: Seq<TimeBlock>,
    oldblocks: Seq<TimeBlock>,
    oldlast: TimeBlock,
    seg: TimeBlock,
    k0: int,
    uei: int,
)
    requires
        oldblocks.len() >= 1,
        newblocks.len() == oldblocks.len(),
        forall|i: int| 0 <= i < oldblocks.len() - 1 ==> #[trigger] newblocks[i] == oldblocks[i],
        oldlast == oldblocks[oldblocks.len() - 1],
        newblocks[newblocks.len() - 1].start == oldlast.start,
        spec_same_attrs(newblocks[newblocks.len() - 1], oldlast),
        spec_same_attrs(oldlast, seg),
        forall|i: int|
            0 <= i < oldblocks.len() ==> block_governed(rules, #[trigger] oldblocks[i]),
        oldlast.end.spec_epoch_sec() == uei,
        0 <= k0 < rules.len(),
        spec_block_from_rule(seg, rules[k0]),
        forall|t: int|
            uei <= t < newblocks[newblocks.len() - 1].end.spec_epoch_sec()
                ==> #[trigger] spec_winner(rules, t) == Some(k0),
    ensures
        forall|i: int|
            0 <= i < newblocks.len() ==> block_governed(rules, #[trigger] newblocks[i]),
{
    assert forall|i: int|
        0 <= i < newblocks.len() implies block_governed(rules, #[trigger] newblocks[i]) by {
        if i == newblocks.len() - 1 {
            let nb = newblocks[i];
            assert(block_governed(rules, oldlast));
            assert forall|t: int|
                nb.start.spec_epoch_sec() <= t < nb.end.spec_epoch_sec() implies (
            #[trigger] spec_winner(rules, t)) is Some && spec_block_from_rule(
                nb,
                rules[spec_winner(rules, t)->0],
            ) by {
                if t < uei {
                    assert(oldlast.start.spec_epoch_sec() <= t < oldlast.end.spec_epoch_sec());
                    let w = spec_winner(rules, t)->0;
                    assert(spec_block_from_rule(oldlast, rules[w]));
                    lemma_attrs_trans(nb, oldlast, rules[w]);
                } else {
                    assert(spec_winner(rules, t) == Some(k0));
                    assert(spec_same_attrs(nb, seg)) by {
                        lemma_same_attrs_trans(nb, oldlast, seg);
                    }
                    lemma_attrs_trans(nb, seg, rules[k0]);
                }
            }
        } else {
            assert(newblocks[i] == oldblocks[i]);
            assert(block_governed(rules, oldblocks[i]));
        }
    }
}

/// Attribute sameness is transitive.
proof fn lemma_same_attrs_trans(a: TimeBlock, b: TimeBlock, c: TimeBlock)
    requires
        spec_same_attrs(a, b),
        spec_same_attrs(b, c),
    ensures
        spec_same_attrs(a, c),
{
}

/// Every block is well-formed.
#[verifier::opaque]
spec fn sw_wf(blocks: Seq<TimeBlock>) -> bool {
    forall|i: int| 0 <= i < blocks.len() ==> (#[trigger] blocks[i]).wf()
}

/// Every block lies inside `[rs, upto]`.
#[verifier::opaque]
spec fn sw_range(blocks: Seq<TimeBlock>, rs: int, upto: int) -> bool {
    forall|i: int|
        0 <= i < blocks.len() ==> rs <= (#[trigger] blocks[i]).start.spec_epoch_sec()
            && blocks[i].end.spec_epoch_sec() <= upto
}

/// Blocks are ordered and disjoint.
#[verifier::opaque]
spec fn sw_ord(blocks: Seq<TimeBlock>) -> bool {
    forall|i: int|
        0 <= i < blocks.len() - 1 ==> (#[trigger] blocks[i]).end.spec_epoch_sec() <= blocks[i
            + 1].start.spec_epoch_sec()
}

/// Every block is governed by winners.
#[verifier::opaque]
spec fn sw_gov(rules: Seq<RecurringRule>, blocks: Seq<TimeBlock>) -> bool {
    forall|i: int| 0 <= i < blocks.len() ==> block_governed(rules, #[trigger] blocks[i])
}

/// Every governed instant below `upto` lies in a block.
#[verifier::opaque]
spec fn sw_cov(rules: Seq<RecurringRule>, blocks: Seq<TimeBlock>, rs: int, upto: int) -> bool {
    forall|t: int|
        rs <= t < upto && #[trigger] spec_winner(rules, t) is Some ==> exists|i: int|
            0 <= i < blocks.len() && (#[trigger] blocks[i]).start.spec_epoch_sec() <= t
                < blocks[i].end.spec_epoch_sec()
}

/// Adjacent equal-attribute blocks are merged.
#[verifier::opaque]
spec fn sw_merge(blocks: Seq<TimeBlock>) -> bool {
    forall|i: int|
        0 <= i < blocks.len() - 1 && (#[trigger] blocks[i]).end == blocks[i + 1].start
            ==> !spec_same_attrs(blocks[i], blocks[i + 1])
}

/// The sweep's running state: blocks are well-formed, ordered, inside
/// `[rs, upto]`, governed by winners, cover every governed instant below
/// `upto`, and adjacent equal-attribute blocks are merged.
spec fn sweep_inv(rules: Seq<RecurringRule>, blocks: Seq<TimeBlock>, rs: int, upto: int) -> bool {
    &&& sw_wf(blocks)
    &&& sw_range(blocks, rs, upto)
    &&& sw_ord(blocks)
    &&& sw_gov(rules, blocks)
    &&& sw_cov(rules, blocks, rs, upto)
    &&& sw_merge(blocks)
}

/// A segment no rule covers extends the sweep state without new blocks.
proof fn lemma_sweep_skip(
    rules: Seq<RecurringRule>,
    blocks: Seq<TimeBlock>,
    rs: int,
    uei: int,
    vei: int,
)
    requires
        sweep_inv(rules, blocks, rs, uei),
        uei <= vei,
        forall|t: int| uei <= t < vei ==> !(#[trigger] spec_winner(rules, t) is Some),
    ensures
        sweep_inv(rules, blocks, rs, vei),
{
    assert(sw_range(blocks, rs, vei)) by {
        reveal(sw_range);
    }
    assert(sw_cov(rules, blocks, rs, vei)) by {
        reveal(sw_cov);
    }
}

/// Appending a governed segment block that does not merge with the last
/// block extends the sweep state to the segment's end.
#[verifier::rlimit(100)]
proof fn lemma_sweep_append(
    rules: Seq<RecurringRule>,
    oldb: Seq<TimeBlock>,
    newb: Seq<TimeBlock>,
    seg: TimeBlock,
    rs: int,
    uei: int,
    vei: int,
)
    requires
        sweep_inv(rules, oldb, rs, uei),
        newb == oldb.push(seg),
        seg.start.spec_epoch_sec() == uei,
        seg.end.spec_epoch_sec() == vei,
        seg.wf(),
        rs <= uei < vei,
        block_governed(rules, seg),
        oldb.len() > 0 ==> !(oldb[oldb.len() - 1].end.spec_epoch_sec() == uei
            && spec_same_attrs(oldb[oldb.len() - 1], seg)),
    ensures
        sweep_inv(rules, newb, rs, vei),
{
    assert(newb.len() == oldb.len() + 1);
    assert(newb[newb.len() - 1] == seg);
    assert(forall|i: int| 0 <= i < oldb.len() ==> #[trigger] newb[i] == oldb[i]);
    assert(sw_wf(newb)) by {
        reveal(sw_wf);
    }
    assert(sw_range(newb, rs, vei)) by {
        reveal(sw_range);
    }
    assert(sw_ord(newb)) by {
        reveal(sw_ord);
        reveal(sw_range);
    }
    assert(sw_gov(rules, newb)) by {
        reveal(sw_gov);
    }
    assert(sw_merge(newb)) by {
        reveal(sw_merge);
        reveal(sw_wf);
        if oldb.len() > 0 {
            assert(newb[newb.len() - 2] == oldb[oldb.len() - 1]);
        }
    }
    assert(sw_cov(rules, newb, rs, vei)) by {
        reveal(sw_cov);
        assert forall|t: int|
            rs <= t < vei && #[trigger] spec_winner(rules, t) is Some implies exists|i: int|
            0 <= i < newb.len() && (#[trigger] newb[i]).start.spec_epoch_sec() <= t
                < newb[i].end.spec_epoch_sec() by {
            if t < uei {
                let i = choose|i: int|
                    0 <= i < oldb.len() && (#[trigger] oldb[i]).start.spec_epoch_sec() <= t
                        < oldb[i].end.spec_epoch_sec();
                assert(newb[i].start.spec_epoch_sec() <= t < newb[i].end.spec_epoch_sec());
            } else {
                let i = newb.len() - 1;
                assert(newb[i].start.spec_epoch_sec() <= t < newb[i].end.spec_epoch_sec());
            }
        }
    }
}

/// Widening the last block keeps coverage: everything the old blocks
/// covered stays covered, and the widened last block covers the new
/// segment.
#[verifier::rlimit(100)]
proof fn lemma_merge_cov(
    rules: Seq<RecurringRule>,
    oldb: Seq<TimeBlock>,
    newb: Seq<TimeBlock>,
    oldlast: TimeBlock,
    rs: int,
    uei: int,
    vei: int,
)
    requires
        sw_cov(rules, oldb, rs, uei),
        oldb.len() >= 1,
        newb.len() == oldb.len(),
        forall|i: int| 0 <= i < oldb.len() - 1 ==> #[trigger] newb[i] == oldb[i],
        oldlast == oldb[oldb.len() - 1],
        newb[newb.len() - 1].start == oldlast.start,
        newb[newb.len() - 1].end.spec_epoch_sec() == vei,
        newb[newb.len() - 1].start.spec_epoch_sec() <= uei,
        rs <= uei < vei,
    ensures
        sw_cov(rules, newb, rs, vei),
{
    reveal(sw_cov);
    assert forall|t: int|
        rs <= t < vei && #[trigger] spec_winner(rules, t) is Some implies exists|i: int|
        0 <= i < newb.len() && (#[trigger] newb[i]).start.spec_epoch_sec() <= t
            < newb[i].end.spec_epoch_sec() by {
        if t < uei {
            let i = choose|i: int|
                0 <= i < oldb.len() && (#[trigger] oldb[i]).start.spec_epoch_sec() <= t
                    < oldb[i].end.spec_epoch_sec();
            if i < oldb.len() - 1 {
                assert(newb[i].start.spec_epoch_sec() <= t < newb[i].end.spec_epoch_sec());
            } else {
                let j = newb.len() - 1;
                assert(newb[j].start == oldlast.start);
                assert(newb[j].start.spec_epoch_sec() <= t < newb[j].end.spec_epoch_sec());
            }
        } else {
            let i = newb.len() - 1;
            assert(newb[i].start.spec_epoch_sec() <= t < newb[i].end.spec_epoch_sec());
        }
    }
}

/// Widening the last block across a same-attribute governed segment
/// extends the sweep state to the segment's end.
#[verifier::rlimit(100)]
proof fn lemma_sweep_merge(
    rules: Seq<RecurringRule>,
    oldb: Seq<TimeBlock>,
    newb: Seq<TimeBlock>,
    oldlast: TimeBlock,
    seg: TimeBlock,
    k0: int,
    rs: int,
    uei: int,
    vei: int,
)
    requires
        sweep_inv(rules, oldb, rs, uei),
        oldb.len() >= 1,
        oldlast == oldb[oldb.len() - 1],
        newb.len() == oldb.len(),
        forall|i: int| 0 <= i < oldb.len() - 1 ==> #[trigger] newb[i] == oldb[i],
        newb[newb.len() - 1].start == oldlast.start,
        newb[newb.len() - 1].end == seg.end,
        spec_same_attrs(newb[newb.len() - 1], oldlast),
        spec_same_attrs(oldlast, seg),
        oldlast.end.spec_epoch_sec() == uei,
        seg.start.spec_epoch_sec() == uei,
        seg.end.spec_epoch_sec() == vei,
        seg.end.wf(),
        rs <= uei < vei,
        0 <= k0 < rules.len(),
        spec_block_from_rule(seg, rules[k0]),
        forall|t: int| uei <= t < vei ==> #[trigger] spec_winner(rules, t) == Some(k0),
    ensures
        sweep_inv(rules, newb, rs, vei),
{
    assert(sw_wf(newb)) by {
        reveal(sw_wf);
        reveal(sw_range);
    }
    assert(sw_range(newb, rs, vei)) by {
        reveal(sw_range);
    }
    assert(sw_ord(newb)) by {
        reveal(sw_ord);
        reveal(sw_range);
    }
    assert(sw_gov(rules, newb)) by {
        reveal(sw_gov);
        lemma_merge_governed(rules, newb, oldb, oldlast, seg, k0, uei);
    }
    assert(sw_merge(newb)) by {
        reveal(sw_merge);
    }
    assert(sw_cov(rules, newb, rs, vei)) by {
        assert(newb[newb.len() - 1].start.spec_epoch_sec() <= uei) by {
            reveal(sw_wf);
        }
        lemma_merge_cov(rules, oldb, newb, oldlast, rs, uei, vei);
    }
}

/// What the sweep environment says of each candidate: well-formed
/// endpoints and a rule position in range.
proof fn lemma_env_cands(
    rules: Seq<RecurringRule>,
    cands: Seq<Cand>,
    bounds: Seq<Timestamp>,
    rs: int,
    re: int,
)
    requires
        sweep_env(rules, cands, bounds, rs, re),
    ensures
        forall|p: int|
            0 <= p < cands.len() ==> (#[trigger] cands[p]).start.wf() && cands[p].end.wf() && 0
                <= cands[p].idx < rules.len(),
{
    reveal(sweep_env);
    assert forall|p: int|
        0 <= p < cands.len() implies (#[trigger] cands[p]).start.wf() && cands[p].end.wf() && 0
        <= cands[p].idx < rules.len() by {
        assert(cand_ok(cands[p], rules, rs, re));
    }
}

/// Between adjacent boundaries the segment lies inside the range, and its
/// boundary instants are well-formed.
proof fn lemma_segment_bounds(
    rules: Seq<RecurringRule>,
    cands: Seq<Cand>,
    bounds: Seq<Timestamp>,
    m: int,
    rs: int,
    re: int,
    range_end: Timestamp,
)
    requires
        sweep_env(rules, cands, bounds, rs, re),
        0 <= m < bounds.len() - 1,
        bounds[bounds.len() - 1] == range_end,
        range_end.spec_epoch_sec() == re,
    ensures
        bounds[m].wf(),
        bounds[m + 1].wf(),
        rs <= bounds[m].spec_epoch_sec(),
        bounds[m].spec_epoch_sec() < bounds[m + 1].spec_epoch_sec(),
        bounds[m + 1].spec_epoch_sec() <= re,
{
    reveal(sweep_env);
    if m + 1 < bounds.len() - 1 {
        assert(bounds[m + 1].spec_epoch_sec() < bounds[bounds.len() - 1].spec_epoch_sec());
    }
}

/// Appends or widens a block for a segment whose start is best covered by
/// candidate `bp`.
#[verifier::loop_isolation(false)]
#[verifier::rlimit(100)]
fn emit_winner_segment(
    rules: &Vec<RecurringRule>,
    cands: &Vec<Cand>,
    bounds: &Vec<Timestamp>,
    m: usize,
    bp: usize,
    blocks: &mut Vec<TimeBlock>,
    range_start: &Timestamp,
    range_end: &Timestamp,
)
    requires
        range_start.wf(),
        range_end.wf(),
        range_start.spec_epoch_sec() < range_end.spec_epoch_sec(),
        sweep_env(
            rules@,
            cands@,
            bounds@,
            range_start.spec_epoch_sec(),
            range_end.spec_epoch_sec(),
        ),
        0 <= m < bounds@.len() - 1,
        bounds@[bounds@.len() - 1] == *range_end,
        0 <= bp < cands@.len(),
        cand_covers(cands@[bp as int], bounds@[m as int].spec_epoch_sec()),
        forall|q: int|
            0 <= q < cands@.len() && cand_covers(
                #[trigger] cands@[q],
                bounds@[m as int].spec_epoch_sec(),
            ) ==> spec_preferred(rules@, cands@[bp as int].idx as int, cands@[q].idx as int),
        sweep_inv(
            rules@,
            old(blocks)@,
            range_start.spec_epoch_sec(),
            bounds@[m as int].spec_epoch_sec(),
        ),
    ensures
        sweep_inv(
            rules@,
            final (blocks)@,
            range_start.spec_epoch_sec(),
            bounds@[m as int + 1].spec_epoch_sec(),
        ),
{
    let ghost rs: int = range_start.spec_epoch_sec();
    let ghost re: int = range_end.spec_epoch_sec();
    proof {
        lemma_segment_bounds(rules@, cands@, bounds@, m as int, rs, re, *range_end);
        lemma_env_cands(rules@, cands@, bounds@, rs, re);
    }
    let nlen: usize = bounds.len();
    assert(m + 1 < nlen);
    let u: Timestamp = bounds[m];
    let v: Timestamp = bounds[m + 1];
    let ghost uei: int = u.spec_epoch_sec();
    let ghost vei: int = v.spec_epoch_sec();
    let k0: usize = cands[bp].idx;
    let rule: &RecurringRule = &rules[k0];
    let seg = TimeBlock {
        start: u,
        end: v,
        availability: copy_availability(&rule.availability),
        capabilities: rule.capabilities,
        location_constraint: copy_loc_constraint(&rule.location_constraint),
        label: copy_label(&rule.label),
        priority: rule.priority,
    };
    proof {
        assert(spec_block_from_rule(seg, rules@[k0 as int]));
        assert forall|t: int|
            uei <= t < vei implies #[trigger] spec_winner(rules@, t) == Some(k0 as int) by {
            lemma_segment_winner(rules@, cands@, bounds@, rs, re, m as int, bp as int, t);
        }
        assert(block_governed(rules@, seg)) by {
            assert forall|t: int|
                seg.start.spec_epoch_sec() <= t < seg.end.spec_epoch_sec() implies (
            #[trigger] spec_winner(rules@, t)) is Some && spec_block_from_rule(
                seg,
                rules@[spec_winner(rules@, t)->0],
            ) by {
                assert(spec_winner(rules@, t) == Some(k0 as int));
            }
        }
    }
    let ghost oldb: Seq<TimeBlock> = blocks@;
    proof {
        assert(forall|i: int|
            0 <= i < oldb.len() ==> (#[trigger] oldb[i]).wf() && oldb[i].end.spec_epoch_sec()
                <= uei) by {
            reveal(sw_wf);
            reveal(sw_range);
        }
    }
    let do_merge: bool = if blocks.len() > 0 {
        let li: usize = blocks.len() - 1;
        blocks[li].end.epoch_sec() == u.epoch_sec() && same_attrs(&blocks[li], &seg)
    } else {
        false
    };
    if do_merge {
        let popped: Option<TimeBlock> = blocks.pop();
        match popped {
            Some(b) => {
                let ghost oldlast: TimeBlock = b;
                let mut lastb: TimeBlock = b;
                lastb.end = v;
                blocks.push(lastb);
                proof {
                    assert(spec_same_attrs(blocks@[blocks@.len() - 1], oldlast));
                    lemma_sweep_merge(
                        rules@,
                        oldb,
                        blocks@,
                        oldlast,
                        seg,
                        k0 as int,
                        rs,
                        uei,
                        vei,
                    );
                }
            },
            None => {
                proof {
                    assert(false);
                }
            },
        }
    } else {
        blocks.push(seg);
        proof {
            lemma_sweep_append(rules@, oldb, blocks@, seg, rs, uei, vei);
        }
    }
}

/// Handles one segment between adjacent boundaries: appends or widens a
/// block when the segment has a winning rule, and leaves the output alone
/// when it has none.
#[verifier::loop_isolation(false)]
#[verifier::rlimit(100)]
fn emit_segment(
    rules: &Vec<RecurringRule>,
    cands: &Vec<Cand>,
    bounds: &Vec<Timestamp>,
    m: usize,
    blocks: &mut Vec<TimeBlock>,
    range_start: &Timestamp,
    range_end: &Timestamp,
)
    requires
        range_start.wf(),
        range_end.wf(),
        range_start.spec_epoch_sec() < range_end.spec_epoch_sec(),
        sweep_env(
            rules@,
            cands@,
            bounds@,
            range_start.spec_epoch_sec(),
            range_end.spec_epoch_sec(),
        ),
        0 <= m < bounds@.len() - 1,
        bounds@[bounds@.len() - 1] == *range_end,
        sweep_inv(
            rules@,
            old(blocks)@,
            range_start.spec_epoch_sec(),
            bounds@[m as int].spec_epoch_sec(),
        ),
    ensures
        sweep_inv(
            rules@,
            final (blocks)@,
            range_start.spec_epoch_sec(),
            bounds@[m as int + 1].spec_epoch_sec(),
        ),
{
    let ghost rs: int = range_start.spec_epoch_sec();
    let ghost re: int = range_end.spec_epoch_sec();
    proof {
        lemma_segment_bounds(rules@, cands@, bounds@, m as int, rs, re, *range_end);
        lemma_env_cands(rules@, cands@, bounds@, rs, re);
    }
    let u: Timestamp = bounds[m];
    let best: Option<usize> = find_best_at(rules, cands, &u);
    match best {
        None => {
            proof {
                let uei = u.spec_epoch_sec();
                let vei = bounds@[m as int + 1].spec_epoch_sec();
                assert forall|t: int|
                    uei <= t < vei implies !(#[trigger] spec_winner(rules@, t) is Some) by {
                    lemma_segment_no_winner(rules@, cands@, bounds@, rs, re, m as int, t);
                }
                lemma_sweep_skip(rules@, blocks@, rs, uei, vei);
            }
        },
        Some(bp) => {
            emit_winner_segment(rules, cands, bounds, m, bp, blocks, range_start, range_end);
        },
    }
}

/// Builds the ordered blocks from the candidates and boundary instants.
#[verifier::loop_isolation(false)]
#[verifier::rlimit(100)]
fn build_blocks(
    rules: &Vec<RecurringRule>,
    cands: &Vec<Cand>,
    bounds: &Vec<Timestamp>,
    range_start: &Timestamp,
    range_end: &Timestamp,
) -> (blocks: Vec<TimeBlock>)
    requires
        range_start.wf(),
        range_end.wf(),
        range_start.spec_epoch_sec() < range_end.spec_epoch_sec(),
        sweep_env(
            rules@,
            cands@,
            bounds@,
            range_start.spec_epoch_sec(),
            range_end.spec_epoch_sec(),
        ),
        bounds@.contains(*range_start),
        bounds@.contains(*range_end),
    ensures
        sweep_inv(rules@, blocks@, range_start.spec_epoch_sec(), range_end.spec_epoch_sec()),
{
    let ghost rs: int = range_start.spec_epoch_sec();
    let ghost re: int = range_end.spec_epoch_sec();
    proof {
        reveal(sweep_env);
        // The first boundary is the range start and the last is the range
        // end.
        let q0 = choose|q: int| 0 <= q < bounds@.len() && #[trigger] bounds@[q] == *range_start;
        if q0 > 0 {
            assert(bounds@[0].spec_epoch_sec() < bounds@[q0].spec_epoch_sec());
        }
        crate::cal::lemma_epoch_sec_injective(bounds@[0], *range_start);
        let q1 = choose|q: int| 0 <= q < bounds@.len() && #[trigger] bounds@[q] == *range_end;
        if q1 < bounds@.len() - 1 {
            assert(bounds@[q1].spec_epoch_sec() < bounds@[bounds@.len() - 1].spec_epoch_sec());
        }
        crate::cal::lemma_epoch_sec_injective(bounds@[bounds@.len() - 1], *range_end);
    }
    assert(bounds@[0] == *range_start);
    assert(bounds@[bounds@.len() - 1] == *range_end);
    assert(bounds@.len() >= 2);

    let mut blocks: Vec<TimeBlock> = Vec::new();
    proof {
        assert(sweep_inv(rules@, blocks@, rs, bounds@[0].spec_epoch_sec())) by {
            reveal(sw_wf);
            reveal(sw_range);
            reveal(sw_ord);
            reveal(sw_gov);
            reveal(sw_cov);
            reveal(sw_merge);
        }
    }
    let mut m: usize = 0;
    while m < bounds.len() - 1
        invariant
            0 <= m <= bounds@.len() - 1,
            sweep_inv(rules@, blocks@, rs, bounds@[m as int].spec_epoch_sec()),
        decreases bounds@.len() - m,
    {
        emit_segment(rules, cands, bounds, m, &mut blocks, range_start, range_end);
        m = m + 1;
    }
    blocks
}

impl ScheduleTemplate {
    /// A usable template: every rule is well-formed, and there are few
    /// enough rules to iterate.
    pub open spec fn wf(self) -> bool {
        &&& forall|i: int| 0 <= i < self.rules@.len() ==> (#[trigger] self.rules@[i]).wf()
        &&& self.rules@.len() < 100_000
    }
}

/// Gathers the boundary instants: the range's two ends and every
/// candidate's two endpoints.
#[verifier::loop_isolation(false)]
fn collect_boundaries(
    cands: &Vec<Cand>,
    range_start: &Timestamp,
    range_end: &Timestamp,
    Ghost(rules): Ghost<Seq<RecurringRule>>,
) -> (raw: Vec<Timestamp>)
    requires
        range_start.wf(),
        range_end.wf(),
        range_start.spec_epoch_sec() <= range_end.spec_epoch_sec(),
        forall|q: int|
            0 <= q < cands@.len() ==> cand_ok(
                #[trigger] cands@[q],
                rules,
                range_start.spec_epoch_sec(),
                range_end.spec_epoch_sec(),
            ),
    ensures
        forall|i: int| 0 <= i < raw@.len() ==> (#[trigger] raw@[i]).wf(),
        raw@.contains(*range_start),
        raw@.contains(*range_end),
        forall|q: int|
            0 <= q < cands@.len() ==> raw@.contains((#[trigger] cands@[q]).start)
                && raw@.contains(cands@[q].end),
        forall|i: int|
            0 <= i < raw@.len() ==> range_start.spec_epoch_sec() <= (
            #[trigger] raw@[i]).spec_epoch_sec() <= range_end.spec_epoch_sec(),
{
    let mut raw_bounds: Vec<Timestamp> = Vec::new();
    raw_bounds.push(*range_start);
    raw_bounds.push(*range_end);
    proof {
        assert(raw_bounds@[0] == *range_start);
        assert(raw_bounds@[1] == *range_end);
        assert(raw_bounds@.contains(*range_start));
        assert(raw_bounds@.contains(*range_end));
    }
    let mut p: usize = 0;
    while p < cands.len()
        invariant
            0 <= p <= cands@.len(),
            forall|i: int| 0 <= i < raw_bounds@.len() ==> (#[trigger] raw_bounds@[i]).wf(),
            raw_bounds@.contains(*range_start),
            raw_bounds@.contains(*range_end),
            forall|q: int|
                0 <= q < p ==> raw_bounds@.contains((#[trigger] cands@[q]).start)
                    && raw_bounds@.contains(cands@[q].end),
            forall|i: int|
                0 <= i < raw_bounds@.len() ==> range_start.spec_epoch_sec() <= (
                #[trigger] raw_bounds@[i]).spec_epoch_sec() <= range_end.spec_epoch_sec(),
        decreases cands@.len() - p,
    {
        let ghost before: Seq<Timestamp> = raw_bounds@;
        raw_bounds.push(cands[p].start);
        raw_bounds.push(cands[p].end);
        proof {
            assert(raw_bounds@[raw_bounds@.len() - 2] == cands@[p as int].start);
            assert(raw_bounds@[raw_bounds@.len() - 1] == cands@[p as int].end);
            assert forall|q: int|
                0 <= q < p + 1 implies raw_bounds@.contains((#[trigger] cands@[q]).start)
                && raw_bounds@.contains(cands@[q].end) by {
                if q < p {
                    let a = choose|a: int|
                        0 <= a < before.len() && #[trigger] before[a] == cands@[q].start;
                    assert(raw_bounds@[a] == cands@[q].start);
                    let b = choose|b: int|
                        0 <= b < before.len() && #[trigger] before[b] == cands@[q].end;
                    assert(raw_bounds@[b] == cands@[q].end);
                }
            }
            let a0 = choose|a: int| 0 <= a < before.len() && #[trigger] before[a] == *range_start;
            assert(raw_bounds@[a0] == *range_start);
            let b0 = choose|b: int| 0 <= b < before.len() && #[trigger] before[b] == *range_end;
            assert(raw_bounds@[b0] == *range_end);
        }
        p = p + 1;
    }
    raw_bounds
}

/// What a finished sweep yields, spelled out for callers.
#[verifier::rlimit(100)]
proof fn lemma_sweep_final(rules: Seq<RecurringRule>, blocks: Seq<TimeBlock>, rs: int, re: int)
    requires
        sweep_inv(rules, blocks, rs, re),
    ensures
        forall|i: int| 0 <= i < blocks.len() ==> (#[trigger] blocks[i]).wf(),
        forall|i: int|
            0 <= i < blocks.len() ==> rs <= (#[trigger] blocks[i]).start.spec_epoch_sec()
                && blocks[i].end.spec_epoch_sec() <= re,
        forall|i: int|
            0 <= i < blocks.len() - 1 ==> (#[trigger] blocks[i]).end.spec_epoch_sec() <= blocks[i
                + 1].start.spec_epoch_sec(),
        forall|i: int| 0 <= i < blocks.len() ==> block_governed(rules, #[trigger] blocks[i]),
        forall|t: int|
            rs <= t < re && #[trigger] spec_winner(rules, t) is Some ==> exists|i: int|
                0 <= i < blocks.len() && (#[trigger] blocks[i]).start.spec_epoch_sec() <= t
                    < blocks[i].end.spec_epoch_sec(),
        forall|i: int|
            0 <= i < blocks.len() - 1 && (#[trigger] blocks[i]).end == blocks[i + 1].start
                ==> !spec_same_attrs(blocks[i], blocks[i + 1]),
{
    reveal(sw_wf);
    reveal(sw_range);
    reveal(sw_ord);
    reveal(sw_gov);
    reveal(sw_cov);
    reveal(sw_merge);
}

/// The sorted unique boundary list inherits everything the sweep needs
/// from the raw list it was built from.
proof fn lemma_bounds_env(
    rules: Seq<RecurringRule>,
    cands: Seq<Cand>,
    rawg: Seq<Timestamp>,
    bounds: Seq<Timestamp>,
    range_start: Timestamp,
    range_end: Timestamp,
)
    requires
        range_start.wf(),
        range_end.wf(),
        forall|i: int| 0 <= i < bounds.len() ==> (#[trigger] bounds[i]).wf(),
        forall|i: int, j: int|
            0 <= i < j < bounds.len() ==> bounds[i].spec_epoch_sec() < bounds[j].spec_epoch_sec(),
        forall|t: Timestamp| #[trigger] bounds.contains(t) <==> rawg.contains(t),
        rawg.contains(range_start),
        rawg.contains(range_end),
        forall|q: int|
            0 <= q < cands.len() ==> rawg.contains((#[trigger] cands[q]).start) && rawg.contains(
                cands[q].end,
            ),
        forall|i: int|
            0 <= i < rawg.len() ==> range_start.spec_epoch_sec() <= (
            #[trigger] rawg[i]).spec_epoch_sec() <= range_end.spec_epoch_sec(),
        forall|p: int|
            0 <= p < cands.len() ==> cand_ok(
                #[trigger] cands[p],
                rules,
                range_start.spec_epoch_sec(),
                range_end.spec_epoch_sec(),
            ),
        forall|k: int, t: int|
            0 <= k < rules.len() && range_start.spec_epoch_sec() <= t
                < range_end.spec_epoch_sec() && #[trigger] spec_rule_covers(rules[k], t)
                ==> covered_by(cands, k, t),
    ensures
        sweep_env(rules, cands, bounds, range_start.spec_epoch_sec(), range_end.spec_epoch_sec()),
        bounds.contains(range_start),
        bounds.contains(range_end),
{
    reveal(sweep_env);
    assert forall|i: int|
        0 <= i < bounds.len() implies range_start.spec_epoch_sec() <= (
    #[trigger] bounds[i]).spec_epoch_sec() <= range_end.spec_epoch_sec() by {
        assert(bounds.contains(bounds[i]));
        assert(rawg.contains(bounds[i]));
        let q = choose|q: int| 0 <= q < rawg.len() && #[trigger] rawg[q] == bounds[i];
    }
    assert forall|p: int|
        0 <= p < cands.len() implies bounds.contains((#[trigger] cands[p]).start)
        && bounds.contains(cands[p].end) by {
        assert(rawg.contains(cands[p].start));
        assert(rawg.contains(cands[p].end));
    }
}

/// Expands a weekly template over `[range_start, range_end)` into an
/// ordered sequence of non-overlapping blocks. Every instant of the range
/// covered by at least one rule lands in a block whose attributes are the
/// winning rule's: strictly higher priority wins; at equal priority the
/// more restrictive availability wins; at equal priority and
/// restrictiveness the rule listed earlier wins. Instants no rule covers
/// appear in no block, and adjacent output with identical attributes is
/// merged. The range's end must lie below the last representable year so
/// an overnight rule on the final day still has a next morning.
#[verifier::rlimit(100)]
pub fn expand_template(
    template: &ScheduleTemplate,
    range_start: Timestamp,
    range_end: Timestamp,
) -> (blocks: Vec<TimeBlock>)
    requires
        template.wf(),
        range_start.wf(),
        range_end.wf(),
        range_end.date.year < crate::cal::MAX_YEAR,
    ensures
        forall|i: int| 0 <= i < blocks@.len() ==> (#[trigger] blocks@[i]).wf(),
        forall|i: int|
            0 <= i < blocks@.len() ==> range_start.spec_epoch_sec() <= (
            #[trigger] blocks@[i]).start.spec_epoch_sec() && blocks@[i].end.spec_epoch_sec()
                <= range_end.spec_epoch_sec(),
        forall|i: int|
            0 <= i < blocks@.len() - 1 ==> (#[trigger] blocks@[i]).end.spec_epoch_sec()
                <= blocks@[i + 1].start.spec_epoch_sec(),
        forall|i: int|
            0 <= i < blocks@.len() ==> block_governed(template.rules@, #[trigger] blocks@[i]),
        forall|t: int|
            range_start.spec_epoch_sec() <= t < range_end.spec_epoch_sec()
                && #[trigger] spec_winner(template.rules@, t) is Some ==> exists|i: int|
                0 <= i < blocks@.len() && (#[trigger] blocks@[i]).start.spec_epoch_sec() <= t
                    < blocks@[i].end.spec_epoch_sec(),
        forall|i: int|
            0 <= i < blocks@.len() - 1 && (#[trigger] blocks@[i]).end == blocks@[i + 1].start
                ==> !spec_same_attrs(blocks@[i], blocks@[i + 1]),
{
    if !range_start.lt(&range_end) {
        let blocks: Vec<TimeBlock> = Vec::new();
        return blocks;
    }
    let cands: Vec<Cand> = collect_candidates(template, &range_start, &range_end);
    let raw_bounds: Vec<Timestamp> = collect_boundaries(
        &cands,
        &range_start,
        &range_end,
        Ghost(template.rules@),
    );
    let ghost rawg: Seq<Timestamp> = raw_bounds@;
    let bounds: Vec<Timestamp> = sort_unique_timestamps(raw_bounds);
    proof {
        lemma_bounds_env(
            template.rules@,
            cands@,
            rawg,
            bounds@,
            range_start,
            range_end,
        );
    }
    let blocks: Vec<TimeBlock> = build_blocks(
        &template.rules,
        &cands,
        &bounds,
        &range_start,
        &range_end,
    );
    proof {
        lemma_sweep_final(
            template.rules@,
            blocks@,
            range_start.spec_epoch_sec(),
            range_end.spec_epoch_sec(),
        );
    }
    blocks
}

// ────────────────────────────────────────────────────────────────────
// Laws of expansion.
// ────────────────────────────────────────────────────────────────────

/// An overnight rule that applies to every weekday covers every instant
/// whose time of day lies at or after the rule's start or before its end:
/// in particular there is no gap at midnight. The first calendar day is
/// excluded, having no previous evening.
pub proof fn lemma_overnight_rule_continuous(r: RecurringRule, t: int)
    requires
        r.wf(),
        r.spec_is_overnight(),
        forall|w: Weekday| r.days@.contains(w),
        t >= 86400,
        t % 86400 >= r.start.sec || t % 86400 < r.end.sec,
    ensures
        spec_rule_covers(r, t),
{
    lemma_div_is_ordered(86400, t, 86400);
    vstd::arithmetic::div_mod::lemma_div_by_self(86400);
}

/// A covered instant always has a winner.
pub proof fn lemma_covered_instant_has_winner(rules: Seq<RecurringRule>, t: int, k: int)
    requires
        0 <= k < rules.len(),
        spec_rule_covers(rules[k], t),
    ensures
        spec_winner(rules, t) is Some,
{
    lemma_winner_characterization(rules, t, rules.len() as int);
    if spec_winner(rules, t) is None {
        assert(!spec_rule_covers(rules[k], t));
    }
}

/// Of two rules covering the same instant, the one with strictly higher
/// priority wins, whatever else covers it is beaten by.
pub proof fn lemma_priority_resolution(rules: Seq<RecurringRule>, t: int, i: int, j: int)
    requires
        0 <= i < rules.len(),
        0 <= j < rules.len(),
        spec_rule_covers(rules[i], t),
        spec_rule_covers(rules[j], t),
        forall|k: int|
            0 <= k < rules.len() && spec_rule_covers(#[trigger] rules[k], t) ==> k == i || k == j,
        rules[i].priority > rules[j].priority,
    ensures
        spec_winner(rules, t) == Some(i),
{
    lemma_winner_unique(rules, t, i);
}

/// At equal priority, the more restrictive availability wins: the
/// documented deterministic tie-break.
pub proof fn lemma_equal_priority_tiebreak(rules: Seq<RecurringRule>, t: int, i: int, j: int)
    requires
        0 <= i < rules.len(),
        0 <= j < rules.len(),
        spec_rule_covers(rules[i], t),
        spec_rule_covers(rules[j], t),
        forall|k: int|
            0 <= k < rules.len() && spec_rule_covers(#[trigger] rules[k], t) ==> k == i || k == j,
        rules[i].priority == rules[j].priority,
        rules[i].availability.spec_restrictiveness() > rules[j].availability.spec_restrictiveness(),
    ensures
        spec_winner(rules, t) == Some(i),
{
    lemma_winner_unique(rules, t, i);
}

} // verus!
