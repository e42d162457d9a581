//! The weekly availability vocabulary: capability levels, availability
//! kinds, location constraints, one weekly `RecurringRule`, the
//! `ScheduleTemplate` that groups rules, and the `TimeBlock` that expansion
//! produces.

use vstd::prelude::*;
use crate::cal::{TimeOfDay, Timestamp, Weekday};
use crate::location::{spec_same_location, Location};
use crate::text::{is_trim_of, lemma_trim_unique, trim};

verus! {

/// Availability during a time period.
#[derive(Debug, Clone, PartialEq, Eq)]
pub enum AvailabilityKind {
    /// Not available for tasks, with a reason for display.
    Unavailable(UnavailableReason),
    /// Busy, but short low-friction tasks fit.
    BusyButFlexible,
    /// Available for tasks.
    Available,
}

impl AvailabilityKind {
    /// How restrictive this kind is: unavailable is the most restrictive,
    /// available the least. Used to break priority ties in expansion.
    pub open spec fn spec_restrictiveness(self) -> int {
        match self {
            AvailabilityKind::Unavailable(_) => 2,
            AvailabilityKind::BusyButFlexible => 1,
            AvailabilityKind::Available => 0,
        }
    }

    /// How restrictive this kind is.
    pub fn restrictiveness(&self) -> (r: u8)
        ensures
            r == self.spec_restrictiveness(),
    {
        match self {
            AvailabilityKind::Unavailable(_) => 2,
            AvailabilityKind::BusyButFlexible => 1,
            AvailabilityKind::Available => 0,
        }
    }
}

/// Why a period is unavailable; display context only.
#[derive(Debug, Clone, PartialEq, Eq)]
pub enum UnavailableReason {
    Sleep,
    Work,
    Appointment,
    Focus,
    Other(String),
}

/// How fully a capability (hands, eyes, speech, cognition) is available.
#[derive(Debug, Clone, Copy, PartialEq, Eq, PartialOrd, Ord, Structural)]
pub enum AvailabilityLevel {
    NotAvailable,
    Limited,
    Full,
}

impl AvailabilityLevel {
    /// Position in the ordering: not available is 0, full is 2.
    pub open spec fn spec_rank(self) -> int {
        match self {
            AvailabilityLevel::NotAvailable => 0,
            AvailabilityLevel::Limited => 1,
            AvailabilityLevel::Full => 2,
        }
    }

    /// Position in the ordering.
    pub fn rank(self) -> (r: u8)
        ensures
            r == self.spec_rank(),
    {
        match self {
            AvailabilityLevel::NotAvailable => 0,
            AvailabilityLevel::Limited => 1,
            AvailabilityLevel::Full => 2,
        }
    }
}

/// What device is at hand.
#[derive(Debug, Clone, Copy, PartialEq, Eq, PartialOrd, Ord, Structural)]
pub enum DeviceAccess {
    NoDevice,
    PhoneOnly,
    Computer,
}

impl DeviceAccess {
    /// Position in the ordering: no device is 0, a computer is 2.
    pub open spec fn spec_rank(self) -> int {
        match self {
            DeviceAccess::NoDevice => 0,
            DeviceAccess::PhoneOnly => 1,
            DeviceAccess::Computer => 2,
        }
    }

    /// Position in the ordering.
    pub fn rank(self) -> (r: u8)
        ensures
            r == self.spec_rank(),
    {
        match self {
            DeviceAccess::NoDevice => 0,
            DeviceAccess::PhoneOnly => 1,
            DeviceAccess::Computer => 2,
        }
    }
}

/// Whether and how the user is moving; unordered, matched by membership.
#[derive(Debug, Clone, Copy, PartialEq, Eq, Structural)]
pub enum Mobility {
    Stationary,
    InTransit,
    Driving,
}

/// The full set of capabilities available during a time period.
#[derive(Debug, Clone, Copy, PartialEq, Eq, Structural)]
pub struct CapabilitySet {
    pub hands: AvailabilityLevel,
    pub eyes: AvailabilityLevel,
    pub speech: AvailabilityLevel,
    pub cognitive: AvailabilityLevel,
    pub device: DeviceAccess,
    pub mobility: Mobility,
}

impl CapabilitySet {
    /// Everything available: free and at a computer.
    pub fn free() -> (r: Self)
        ensures
            r == (CapabilitySet {
                hands: AvailabilityLevel::Full,
                eyes: AvailabilityLevel::Full,
                speech: AvailabilityLevel::Full,
                cognitive: AvailabilityLevel::Full,
                device: DeviceAccess::Computer,
                mobility: Mobility::Stationary,
            }),
    {
        CapabilitySet {
            hands: AvailabilityLevel::Full,
            eyes: AvailabilityLevel::Full,
            speech: AvailabilityLevel::Full,
            cognitive: AvailabilityLevel::Full,
            device: DeviceAccess::Computer,
            mobility: Mobility::Stationary,
        }
    }

    /// Driving: no hands or eyes, limited cognition, no device.
    pub fn driving() -> (r: Self)
        ensures
            r == (CapabilitySet {
                hands: AvailabilityLevel::NotAvailable,
                eyes: AvailabilityLevel::NotAvailable,
                speech: AvailabilityLevel::Full,
                cognitive: AvailabilityLevel::Limited,
                device: DeviceAccess::NoDevice,
                mobility: Mobility::Driving,
            }),
    {
        CapabilitySet {
            hands: AvailabilityLevel::NotAvailable,
            eyes: AvailabilityLevel::NotAvailable,
            speech: AvailabilityLevel::Full,
            cognitive: AvailabilityLevel::Limited,
            device: DeviceAccess::NoDevice,
            mobility: Mobility::Driving,
        }
    }

    /// In transit as a passenger or on foot: limited hands and eyes, a
    /// phone at hand.
    pub fn in_transit() -> (r: Self)
        ensures
            r == (CapabilitySet {
                hands: AvailabilityLevel::Limited,
                eyes: AvailabilityLevel::Limited,
                speech: AvailabilityLevel::Full,
                cognitive: AvailabilityLevel::Full,
                device: DeviceAccess::PhoneOnly,
                mobility: Mobility::InTransit,
            }),
    {
        CapabilitySet {
            hands: AvailabilityLevel::Limited,
            eyes: AvailabilityLevel::Limited,
            speech: AvailabilityLevel::Full,
            cognitive: AvailabilityLevel::Full,
            device: DeviceAccess::PhoneOnly,
            mobility: Mobility::InTransit,
        }
    }
}

/// Longest task, in minutes, that a busy-but-flexible period takes.
pub fn busy_flex_max_minutes() -> (r: u32)
    ensures
        r == crate::config::DEFAULT_BUSY_FLEX_MAX_MINUTES,
{
    crate::config::schedule_busy_flex_max_minutes()
}

/// Highest hands level a busy-but-flexible period allows.
pub fn busy_flex_max_hands() -> (r: AvailabilityLevel)
    ensures
        r == AvailabilityLevel::Limited,
{
    match crate::config::schedule_busy_flex_max_hands_level() {
        0 => AvailabilityLevel::NotAvailable,
        1 => AvailabilityLevel::Limited,
        _ => AvailabilityLevel::Full,
    }
}

/// Highest eyes level a busy-but-flexible period allows.
pub fn busy_flex_max_eyes() -> (r: AvailabilityLevel)
    ensures
        r == AvailabilityLevel::Limited,
{
    match crate::config::schedule_busy_flex_max_eyes_level() {
        0 => AvailabilityLevel::NotAvailable,
        1 => AvailabilityLevel::Limited,
        _ => AvailabilityLevel::Full,
    }
}

/// Highest device level a busy-but-flexible period allows.
pub fn busy_flex_max_device() -> (r: DeviceAccess)
    ensures
        r == DeviceAccess::PhoneOnly,
{
    match crate::config::schedule_busy_flex_max_device_level() {
        0 => DeviceAccess::NoDevice,
        1 => DeviceAccess::PhoneOnly,
        _ => DeviceAccess::Computer,
    }
}

/// Constraint on where the user must be during a period.
#[derive(Debug, Clone, PartialEq)]
pub enum LocationConstraint {
    /// Anywhere.
    Any,
    /// A known location is required.
    MustBeKnown,
    /// No known location may be set.
    MustBeUnknown,
    /// One of the listed locations is required.
    MustBeOneOf(Vec<Location>),
}

/// The location as the matcher's spec sees it: the borrowed argument,
/// dereferenced.
pub open spec fn spec_opt_location(cur: Option<&Location>) -> Option<Location> {
    match cur {
        Some(l) => Some(*l),
        None => None,
    }
}

/// Whether a location constraint accepts the current location.
pub open spec fn spec_loc_matches(c: LocationConstraint, cur: Option<Location>) -> bool {
    match c {
        LocationConstraint::Any => true,
        LocationConstraint::MustBeKnown => cur is Some,
        LocationConstraint::MustBeUnknown => cur is None,
        LocationConstraint::MustBeOneOf(allowed) => cur is Some && exists|i: int|
            0 <= i < allowed@.len() && spec_same_location(#[trigger] allowed@[i], cur->0),
    }
}

impl LocationConstraint {
    /// Whether the given current location satisfies this constraint.
    pub fn matches(&self, current_location: Option<&Location>) -> (r: bool)
        ensures
            r == spec_loc_matches(*self, spec_opt_location(current_location)),
    {
        match self {
            LocationConstraint::Any => true,
            LocationConstraint::MustBeKnown => current_location.is_some(),
            LocationConstraint::MustBeUnknown => current_location.is_none(),
            LocationConstraint::MustBeOneOf(allowed) => {
                match current_location {
                    Some(loc) => {
                        let mut i: usize = 0;
                        let mut found: bool = false;
                        while i < allowed.len()
                            invariant
                                0 <= i <= allowed@.len(),
                                found == exists|p: int|
                                    0 <= p < i && spec_same_location(
                                        #[trigger] allowed@[p],
                                        *loc,
                                    ),
                            decreases allowed@.len() - i,
                        {
                            if allowed[i].same_as(loc) {
                                found = true;
                            }
                            i = i + 1;
                        }
                        found
                    },
                    None => false,
                }
            },
        }
    }
}

/// One weekly availability rule. If `end <= start` the rule is overnight:
/// it runs from `start` through midnight into `end` on the next day.
#[derive(Debug, Clone, PartialEq)]
pub struct RecurringRule {
    /// Days of the week the rule applies to.
    pub days: Vec<Weekday>,
    /// Start time of day.
    pub start: TimeOfDay,
    /// End time of day; at or before `start` for overnight rules.
    pub end: TimeOfDay,
    /// Availability during the period.
    pub availability: AvailabilityKind,
    /// Capabilities during the period.
    pub capabilities: CapabilitySet,
    /// Where the user must be during the period.
    pub location_constraint: LocationConstraint,
    /// Optional label for display.
    pub label: Option<String>,
    /// Priority for conflict resolution; higher wins.
    pub priority: i16,
}

impl RecurringRule {
    /// A usable rule: well-formed times and at least one day.
    pub open spec fn wf(self) -> bool {
        &&& self.start.wf()
        &&& self.end.wf()
        &&& self.days@.len() > 0
    }

    /// Whether the rule crosses midnight.
    pub open spec fn spec_is_overnight(self) -> bool {
        self.end.sec <= self.start.sec
    }

    /// Whether the rule crosses midnight.
    pub fn is_overnight(&self) -> (r: bool)
        ensures
            r == self.spec_is_overnight(),
    {
        self.end.sec <= self.start.sec
    }

    /// Builds a rule; at least one day is required.
    pub fn new(
        days: Vec<Weekday>,
        start: TimeOfDay,
        end: TimeOfDay,
        availability: AvailabilityKind,
        capabilities: CapabilitySet,
        location_constraint: LocationConstraint,
        label: Option<String>,
        priority: i16,
    ) -> (r: Result<RecurringRule, String>)
        requires
            start.wf(),
            end.wf(),
        ensures
            r is Ok <==> days@.len() > 0,
            r is Ok ==> r->Ok_0 == (RecurringRule {
                days,
                start,
                end,
                availability,
                capabilities,
                location_constraint,
                label,
                priority,
            }),
            r is Ok ==> r->Ok_0.wf(),
    {
        if days.len() == 0 {
            return Err("RecurringRule must have at least one day".to_owned());
        }
        Ok(
            RecurringRule {
                days,
                start,
                end,
                availability,
                capabilities,
                location_constraint,
                label,
                priority,
            },
        )
    }
}

/// A weekly schedule template: a name, an IANA time zone identifier
/// (format-validated elsewhere; only non-emptiness is checked here), and
/// the rules that shape the week.
#[derive(Debug, Clone, PartialEq)]
pub struct ScheduleTemplate {
    pub name: String,
    pub timezone: String,
    pub rules: Vec<RecurringRule>,
}

impl ScheduleTemplate {
    /// Builds a template: the name is stored trimmed and must be non-empty,
    /// the time zone must be non-empty after trimming but is stored as
    /// given.
    pub fn new(name: String, timezone: String, rules: Vec<RecurringRule>) -> (r: Result<
        ScheduleTemplate,
        String,
    >)
        ensures
            forall|tn: Seq<char>| #[trigger]
                is_trim_of(tn, name@) ==> ((r is Ok ==> r->Ok_0.name@ == tn) && (tn.len() == 0
                    ==> r is Err)),
            forall|tn: Seq<char>, tz: Seq<char>|
                (#[trigger] is_trim_of(tn, name@) && #[trigger] is_trim_of(tz, timezone@)) ==> (r
                    is Ok <==> (tn.len() > 0 && tz.len() > 0)),
            r is Ok ==> r->Ok_0.timezone == timezone && r->Ok_0.rules == rules,
    {
        let ghost nameg: Seq<char> = name@;
        let ghost tzg: Seq<char> = timezone@;
        let trimmed_name: &str = trim(name.as_str());
        proof {
            assert forall|t1: Seq<char>| is_trim_of(t1, nameg) implies t1 == trimmed_name@ by {
                lemma_trim_unique(nameg, t1, trimmed_name@);
            }
        }
        if trimmed_name.unicode_len() == 0 {
            return Err("Schedule template name cannot be empty".to_owned());
        }
        let trimmed_tz: &str = trim(timezone.as_str());
        proof {
            assert forall|t1: Seq<char>| is_trim_of(t1, tzg) implies t1 == trimmed_tz@ by {
                lemma_trim_unique(tzg, t1, trimmed_tz@);
            }
        }
        if trimmed_tz.unicode_len() == 0 {
            return Err("Timezone cannot be empty".to_owned());
        }
        Ok(ScheduleTemplate { name: trimmed_name.to_owned(), timezone, rules })
    }
}

/// A concrete, conflict-resolved interval of availability: the expansion
/// engine's output unit. Immutable once produced.
#[derive(Debug, Clone, PartialEq)]
pub struct TimeBlock {
    /// Start instant, inclusive.
    pub start: Timestamp,
    /// End instant, exclusive.
    pub end: Timestamp,
    /// Availability inherited from the winning rule.
    pub availability: AvailabilityKind,
    /// Capabilities inherited from the winning rule.
    pub capabilities: CapabilitySet,
    /// Location constraint inherited from the winning rule.
    pub location_constraint: LocationConstraint,
    /// Label inherited from the winning rule.
    pub label: Option<String>,
    /// Priority of the winning rule.
    pub priority: i16,
}

impl TimeBlock {
    /// A usable block: well-formed instants, start strictly before end.
    pub open spec fn wf(self) -> bool {
        &&& self.start.wf()
        &&& self.end.wf()
        &&& self.start.spec_epoch_sec() < self.end.spec_epoch_sec()
    }
}

} // verus!
