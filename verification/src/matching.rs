//! The capability matcher: given a concrete `TimeBlock` and a task's
//! declared requirements, decides whether the task can be scheduled there.
//! Four gates are AND-ed: availability, location, capabilities, duration.

use vstd::prelude::*;
use crate::cal::Timestamp;
use crate::config::DEFAULT_BUSY_FLEX_MAX_MINUTES;
use crate::location::Location;
use crate::schedule::{
    spec_loc_matches, spec_opt_location, AvailabilityKind, AvailabilityLevel, DeviceAccess,
    LocationConstraint, Mobility, TimeBlock,
};

verus! {

/// What a task asks of a time slot. Any task-like type exposes these
/// through the `SchedulableTask` contract; this plain value is the
/// library's own implementor.
pub trait SchedulableTask {
    /// Estimated duration in minutes, as the contract's model.
    spec fn spec_duration_minutes(&self) -> u32;

    /// Whether a known location is required, as the contract's model.
    spec fn spec_requires_location(&self) -> bool;

    /// Least hands level required, as the contract's model.
    spec fn spec_min_hands(&self) -> AvailabilityLevel;

    /// Least eyes level required, as the contract's model.
    spec fn spec_min_eyes(&self) -> AvailabilityLevel;

    /// Least speech level required, as the contract's model.
    spec fn spec_min_speech(&self) -> AvailabilityLevel;

    /// Least cognitive level required, as the contract's model.
    spec fn spec_min_cognitive(&self) -> AvailabilityLevel;

    /// Least device access required, as the contract's model.
    spec fn spec_min_device(&self) -> DeviceAccess;

    /// Allowed mobility states; empty means all, as the contract's model.
    spec fn spec_allowed_mobility(&self) -> Seq<Mobility>;

    /// Estimated duration in minutes.
    fn estimated_duration_minutes(&self) -> (r: u32)
        ensures
            r == self.spec_duration_minutes(),
    ;

    /// Whether the task requires a known location.
    fn requires_location(&self) -> (r: bool)
        ensures
            r == self.spec_requires_location(),
    ;

    /// Least hands availability required.
    fn min_hands(&self) -> (r: AvailabilityLevel)
        ensures
            r == self.spec_min_hands(),
    ;

    /// Least eyes availability required.
    fn min_eyes(&self) -> (r: AvailabilityLevel)
        ensures
            r == self.spec_min_eyes(),
    ;

    /// Least speech availability required.
    fn min_speech(&self) -> (r: AvailabilityLevel)
        ensures
            r == self.spec_min_speech(),
    ;

    /// Least cognitive availability required.
    fn min_cognitive(&self) -> (r: AvailabilityLevel)
        ensures
            r == self.spec_min_cognitive(),
    ;

    /// Least device access required.
    fn min_device(&self) -> (r: DeviceAccess)
        ensures
            r == self.spec_min_device(),
    ;

    /// Allowed mobility states; empty means every state is allowed.
    fn allowed_mobility(&self) -> (r: Vec<Mobility>)
        ensures
            r@ == self.spec_allowed_mobility(),
    ;
}

/// A task's scheduling requirements as a plain value.
#[derive(Debug, Clone, PartialEq, Eq)]
pub struct TaskRequirements {
    pub duration_minutes: u32,
    pub requires_location: bool,
    pub min_hands: AvailabilityLevel,
    pub min_eyes: AvailabilityLevel,
    pub min_speech: AvailabilityLevel,
    pub min_cognitive: AvailabilityLevel,
    pub min_device: DeviceAccess,
    pub allowed_mobility: Vec<Mobility>,
}

impl TaskRequirements {
    /// Requirements any slot satisfies: no location, no capabilities, the
    /// given duration.
    pub fn simple(duration_minutes: u32) -> (r: TaskRequirements)
        ensures
            r.duration_minutes == duration_minutes,
            !r.requires_location,
            r.min_hands == AvailabilityLevel::NotAvailable,
            r.min_eyes == AvailabilityLevel::NotAvailable,
            r.min_speech == AvailabilityLevel::NotAvailable,
            r.min_cognitive == AvailabilityLevel::NotAvailable,
            r.min_device == DeviceAccess::NoDevice,
            r.allowed_mobility@ == Seq::<Mobility>::empty(),
    {
        TaskRequirements {
            duration_minutes,
            requires_location: false,
            min_hands: AvailabilityLevel::NotAvailable,
            min_eyes: AvailabilityLevel::NotAvailable,
            min_speech: AvailabilityLevel::NotAvailable,
            min_cognitive: AvailabilityLevel::NotAvailable,
            min_device: DeviceAccess::NoDevice,
            allowed_mobility: Vec::new(),
        }
    }
}

impl SchedulableTask for TaskRequirements {
    open spec fn spec_duration_minutes(&self) -> u32 {
        self.duration_minutes
    }

    open spec fn spec_requires_location(&self) -> bool {
        self.requires_location
    }

    open spec fn spec_min_hands(&self) -> AvailabilityLevel {
        self.min_hands
    }

    open spec fn spec_min_eyes(&self) -> AvailabilityLevel {
        self.min_eyes
    }

    open spec fn spec_min_speech(&self) -> AvailabilityLevel {
        self.min_speech
    }

    open spec fn spec_min_cognitive(&self) -> AvailabilityLevel {
        self.min_cognitive
    }

    open spec fn spec_min_device(&self) -> DeviceAccess {
        self.min_device
    }

    open spec fn spec_allowed_mobility(&self) -> Seq<Mobility> {
        self.allowed_mobility@
    }

    fn estimated_duration_minutes(&self) -> (r: u32) {
        self.duration_minutes
    }

    fn requires_location(&self) -> (r: bool) {
        self.requires_location
    }

    fn min_hands(&self) -> (r: AvailabilityLevel) {
        self.min_hands
    }

    fn min_eyes(&self) -> (r: AvailabilityLevel) {
        self.min_eyes
    }

    fn min_speech(&self) -> (r: AvailabilityLevel) {
        self.min_speech
    }

    fn min_cognitive(&self) -> (r: AvailabilityLevel) {
        self.min_cognitive
    }

    fn min_device(&self) -> (r: DeviceAccess) {
        self.min_device
    }

    fn allowed_mobility(&self) -> (r: Vec<Mobility>) {
        self.allowed_mobility.clone()
    }
}

// ────────────────────────────────────────────────────────────────────
// The four gates, as spec functions.
// ────────────────────────────────────────────────────────────────────

/// A micro task: short enough for a busy-but-flexible slot and needing no
/// location.
pub open spec fn spec_is_micro_task<T: SchedulableTask>(task: &T) -> bool {
    &&& task.spec_duration_minutes() <= DEFAULT_BUSY_FLEX_MAX_MINUTES
    &&& !task.spec_requires_location()
}

/// Extra conditions of a busy-but-flexible slot: the slot's location
/// constraint must be indifferent or satisfied by having no location, no
/// computer may be required, and hands and eyes may be at most limited.
pub open spec fn spec_busy_flex_ok<T: SchedulableTask>(
    task: &T,
    block: TimeBlock,
    cur: Option<Location>,
) -> bool {
    &&& match block.location_constraint {
        LocationConstraint::Any => true,
        LocationConstraint::MustBeUnknown => cur is None,
        _ => false,
    }
    &&& task.spec_min_device() != DeviceAccess::Computer
    &&& task.spec_min_hands().spec_rank() <= AvailabilityLevel::Limited.spec_rank()
    &&& task.spec_min_eyes().spec_rank() <= AvailabilityLevel::Limited.spec_rank()
}

/// The location gate: the block's constraint accepts the current location,
/// and a task that needs a location has one.
pub open spec fn spec_location_ok<T: SchedulableTask>(
    task: &T,
    block: TimeBlock,
    cur: Option<Location>,
) -> bool {
    &&& spec_loc_matches(block.location_constraint, cur)
    &&& (task.spec_requires_location() ==> cur is Some)
}

/// The capability gate: every ordered dimension of the block is at least
/// the task's minimum, and when the task restricts mobility the block's
/// state is among the allowed ones.
pub open spec fn spec_capabilities_ok<T: SchedulableTask>(task: &T, block: TimeBlock) -> bool {
    &&& block.capabilities.hands.spec_rank() >= task.spec_min_hands().spec_rank()
    &&& block.capabilities.eyes.spec_rank() >= task.spec_min_eyes().spec_rank()
    &&& block.capabilities.speech.spec_rank() >= task.spec_min_speech().spec_rank()
    &&& block.capabilities.cognitive.spec_rank() >= task.spec_min_cognitive().spec_rank()
    &&& block.capabilities.device.spec_rank() >= task.spec_min_device().spec_rank()
    &&& (task.spec_allowed_mobility().len() > 0 ==> task.spec_allowed_mobility().contains(
        block.capabilities.mobility,
    ))
}

/// The duration gate: the block holds at least the task's estimated
/// minutes.
pub open spec fn spec_duration_ok<T: SchedulableTask>(task: &T, block: TimeBlock) -> bool {
    (block.end.spec_epoch_sec() - block.start.spec_epoch_sec()) / 60
        >= task.spec_duration_minutes()
}

/// Whether the task fits the block: unavailable blocks take nothing;
/// busy-but-flexible blocks take only micro tasks that also pass the
/// busy-flex conditions; then location, capabilities and duration must all
/// pass.
pub open spec fn spec_can_schedule<T: SchedulableTask>(
    task: &T,
    block: TimeBlock,
    cur: Option<Location>,
) -> bool {
    match block.availability {
        AvailabilityKind::Unavailable(_) => false,
        AvailabilityKind::BusyButFlexible => {
            &&& spec_is_micro_task(task)
            &&& spec_busy_flex_ok(task, block, cur)
            &&& spec_location_ok(task, block, cur)
            &&& spec_capabilities_ok(task, block)
            &&& spec_duration_ok(task, block)
        },
        AvailabilityKind::Available => {
            &&& spec_location_ok(task, block, cur)
            &&& spec_capabilities_ok(task, block)
            &&& spec_duration_ok(task, block)
        },
    }
}

// ────────────────────────────────────────────────────────────────────
// The matcher.
// ────────────────────────────────────────────────────────────────────

/// Whether the task counts as a micro task for busy-but-flexible periods.
pub fn is_micro_task<T: SchedulableTask>(task: &T) -> (r: bool)
    ensures
        r == spec_is_micro_task(task),
{
    task.estimated_duration_minutes() <= crate::schedule::busy_flex_max_minutes()
        && !task.requires_location()
}

/// Checks the busy-but-flexible conditions.
fn check_busy_flex_constraints<T: SchedulableTask>(
    task: &T,
    block: &TimeBlock,
    current_location: Option<&Location>,
) -> (r: bool)
    ensures
        r == spec_busy_flex_ok(task, *block, spec_opt_location(current_location)),
{
    let location_ok: bool = match &block.location_constraint {
        LocationConstraint::Any => true,
        LocationConstraint::MustBeUnknown => current_location.is_none(),
        _ => false,
    };
    if !location_ok {
        return false;
    }
    if task.min_device() == DeviceAccess::Computer {
        return false;
    }
    if task.min_hands().rank() > crate::schedule::busy_flex_max_hands().rank() {
        return false;
    }
    if task.min_eyes().rank() > crate::schedule::busy_flex_max_eyes().rank() {
        return false;
    }
    true
}

/// Checks the location gate.
fn check_location_requirements<T: SchedulableTask>(
    task: &T,
    block: &TimeBlock,
    current_location: Option<&Location>,
) -> (r: bool)
    ensures
        r == spec_location_ok(task, *block, spec_opt_location(current_location)),
{
    if !block.location_constraint.matches(current_location) {
        return false;
    }
    if task.requires_location() && current_location.is_none() {
        return false;
    }
    true
}

/// Checks the capability gate.
fn check_capability_requirements<T: SchedulableTask>(task: &T, block: &TimeBlock) -> (r: bool)
    ensures
        r == spec_capabilities_ok(task, *block),
{
    if block.capabilities.hands.rank() < task.min_hands().rank() {
        return false;
    }
    if block.capabilities.eyes.rank() < task.min_eyes().rank() {
        return false;
    }
    if block.capabilities.speech.rank() < task.min_speech().rank() {
        return false;
    }
    if block.capabilities.cognitive.rank() < task.min_cognitive().rank() {
        return false;
    }
    if block.capabilities.device.rank() < task.min_device().rank() {
        return false;
    }
    let allowed_mobility = task.allowed_mobility();
    if allowed_mobility.len() > 0 {
        let mut i: usize = 0;
        let mut found: bool = false;
        while i < allowed_mobility.len()
            invariant
                0 <= i <= allowed_mobility@.len(),
                found == exists|p: int|
                    0 <= p < i && allowed_mobility@[p] == block.capabilities.mobility,
            decreases allowed_mobility@.len() - i,
        {
            if allowed_mobility[i] == block.capabilities.mobility {
                found = true;
            }
            i = i + 1;
        }
        if !found {
            return false;
        }
    }
    true
}

/// Whether the task can be scheduled in the block at the current location.
pub fn can_schedule_task_in_block<T: SchedulableTask>(
    task: &T,
    block: &TimeBlock,
    current_location: Option<&Location>,
) -> (r: bool)
    requires
        block.wf(),
    ensures
        r == spec_can_schedule(task, *block, spec_opt_location(current_location)),
{
    match &block.availability {
        AvailabilityKind::Unavailable(_) => {
            return false;
        },
        AvailabilityKind::BusyButFlexible => {
            if !is_micro_task(task) {
                return false;
            }
            if !check_busy_flex_constraints(task, block, current_location) {
                return false;
            }
        },
        AvailabilityKind::Available => {},
    }
    if !check_location_requirements(task, block, current_location) {
        return false;
    }
    if !check_capability_requirements(task, block) {
        return false;
    }
    let block_duration_minutes: i64 = (block.end.epoch_sec() - block.start.epoch_sec()) / 60;
    if block_duration_minutes < task.estimated_duration_minutes() as i64 {
        return false;
    }
    true
}

/// The slots of `blocks`, in order, where the task fits, as start and end
/// pairs.
pub open spec fn spec_candidate_slots<T: SchedulableTask>(
    blocks: Seq<TimeBlock>,
    task: &T,
    cur: Option<Location>,
) -> Seq<(Timestamp, Timestamp)>
    decreases blocks.len(),
{
    if blocks.len() == 0 {
        Seq::empty()
    } else {
        let rest = spec_candidate_slots(blocks.drop_last(), task, cur);
        if spec_can_schedule(task, blocks.last(), cur) {
            rest.push((blocks.last().start, blocks.last().end))
        } else {
            rest
        }
    }
}

/// The start and end of every block where the task can be scheduled, in
/// the blocks' order.
pub fn find_candidate_slots<T: SchedulableTask>(
    blocks: &[TimeBlock],
    task: &T,
    current_location: Option<&Location>,
) -> (r: Vec<(Timestamp, Timestamp)>)
    requires
        forall|i: int| 0 <= i < blocks@.len() ==> (#[trigger] blocks@[i]).wf(),
    ensures
        r@ == spec_candidate_slots(blocks@, task, spec_opt_location(current_location)),
{
    let ghost cur = spec_opt_location(current_location);
    let mut candidates: Vec<(Timestamp, Timestamp)> = Vec::new();
    let mut i: usize = 0;
    while i < blocks.len()
        invariant
            0 <= i <= blocks@.len(),
            forall|p: int| 0 <= p < blocks@.len() ==> (#[trigger] blocks@[p]).wf(),
            cur == spec_opt_location(current_location),
            candidates@ == spec_candidate_slots(blocks@.subrange(0, i as int), task, cur),
        decreases blocks@.len() - i,
    {
        let block = &blocks[i];
        if can_schedule_task_in_block(task, block, current_location) {
            candidates.push((block.start, block.end));
        }
        proof {
            assert(blocks@.subrange(0, i as int + 1).drop_last() == blocks@.subrange(0, i as int));
            assert(blocks@.subrange(0, i as int + 1).last() == blocks@[i as int]);
        }
        i = i + 1;
    }
    proof {
        assert(blocks@.subrange(0, blocks@.len() as int) == blocks@);
    }
    candidates
}

} // verus!
