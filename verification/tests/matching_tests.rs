use tsadaash::{
    can_schedule_task_in_block, AvailabilityKind, AvailabilityLevel, CapabilitySet, DeviceAccess,
    GeoCoordinates, Location, LocationConstraint, Mobility, TaskRequirements, TimeBlock,
    Timestamp, UnavailableReason,
};

fn make_block(
    availability: AvailabilityKind,
    capabilities: CapabilitySet,
    location_constraint: LocationConstraint,
    duration_minutes: u32,
) -> TimeBlock {
    let start = Timestamp::from_ymd_hms(2026, 2, 10, 9, 0, 0).unwrap();
    let end_minute = duration_minutes % 60;
    let end_hour = 9 + duration_minutes / 60;
    let end = Timestamp::from_ymd_hms(2026, 2, 10, end_hour, end_minute, 0).unwrap();

    TimeBlock {
        start,
        end,
        availability,
        capabilities,
        location_constraint,
        label: None,
        priority: 0,
    }
}

#[test]
fn test_unavailable_blocks_reject_all_tasks() {
    let task = TaskRequirements::simple(10);
    let block = make_block(
        AvailabilityKind::Unavailable(UnavailableReason::Sleep),
        CapabilitySet::free(),
        LocationConstraint::Any,
        60,
    );

    assert!(!can_schedule_task_in_block(&task, &block, None));
}

#[test]
fn test_available_blocks_accept_matching_tasks() {
    let task = TaskRequirements::simple(10);
    let block = make_block(
        AvailabilityKind::Available,
        CapabilitySet::free(),
        LocationConstraint::Any,
        60,
    );

    assert!(can_schedule_task_in_block(&task, &block, None));
}

#[test]
fn test_busy_flex_accepts_micro_tasks() {
    let task = TaskRequirements::simple(10);
    let block = make_block(
        AvailabilityKind::BusyButFlexible,
        CapabilitySet::free(),
        LocationConstraint::Any,
        60,
    );

    assert!(can_schedule_task_in_block(&task, &block, None));
}

#[test]
fn test_busy_flex_rejects_long_tasks() {
    let task = TaskRequirements::simple(20);
    let block = make_block(
        AvailabilityKind::BusyButFlexible,
        CapabilitySet::free(),
        LocationConstraint::Any,
        60,
    );

    assert!(!can_schedule_task_in_block(&task, &block, None));
}

#[test]
fn test_busy_flex_rejects_location_required_tasks() {
    let mut task = TaskRequirements::simple(10);
    task.requires_location = true;

    let block = make_block(
        AvailabilityKind::BusyButFlexible,
        CapabilitySet::free(),
        LocationConstraint::Any,
        60,
    );

    assert!(!can_schedule_task_in_block(&task, &block, None));
}

#[test]
fn test_busy_flex_rejects_computer_tasks() {
    let mut task = TaskRequirements::simple(10);
    task.min_device = DeviceAccess::Computer;

    let block = make_block(
        AvailabilityKind::BusyButFlexible,
        CapabilitySet::free(),
        LocationConstraint::Any,
        60,
    );

    assert!(!can_schedule_task_in_block(&task, &block, None));
}

#[test]
fn test_busy_flex_rejects_full_hands_tasks() {
    let mut task = TaskRequirements::simple(10);
    task.min_hands = AvailabilityLevel::Full;

    let block = make_block(
        AvailabilityKind::BusyButFlexible,
        CapabilitySet::free(),
        LocationConstraint::Any,
        60,
    );

    assert!(!can_schedule_task_in_block(&task, &block, None));
}

#[test]
fn test_busy_flex_rejects_full_eyes_tasks() {
    let mut task = TaskRequirements::simple(10);
    task.min_eyes = AvailabilityLevel::Full;

    let block = make_block(
        AvailabilityKind::BusyButFlexible,
        CapabilitySet::free(),
        LocationConstraint::Any,
        60,
    );

    assert!(!can_schedule_task_in_block(&task, &block, None));
}

#[test]
fn test_capability_matching_hands() {
    let mut task = TaskRequirements::simple(10);
    task.min_hands = AvailabilityLevel::Full;

    let mut caps = CapabilitySet::free();
    caps.hands = AvailabilityLevel::Limited;
    let block = make_block(AvailabilityKind::Available, caps, LocationConstraint::Any, 60);
    assert!(!can_schedule_task_in_block(&task, &block, None));

    let block = make_block(
        AvailabilityKind::Available,
        CapabilitySet::free(),
        LocationConstraint::Any,
        60,
    );
    assert!(can_schedule_task_in_block(&task, &block, None));
}

#[test]
fn test_device_matching() {
    let mut task = TaskRequirements::simple(10);
    task.min_device = DeviceAccess::Computer;

    let mut caps = CapabilitySet::free();
    caps.device = DeviceAccess::PhoneOnly;
    let block = make_block(AvailabilityKind::Available, caps, LocationConstraint::Any, 60);
    assert!(!can_schedule_task_in_block(&task, &block, None));

    let block = make_block(
        AvailabilityKind::Available,
        CapabilitySet::free(),
        LocationConstraint::Any,
        60,
    );
    assert!(can_schedule_task_in_block(&task, &block, None));
}

#[test]
fn test_location_constraint_matching() {
    let coords = GeoCoordinates::new(40_712_800, -74_006_000).unwrap();
    let location = Location::new(
        Some("Home".to_string()),
        "New York".to_string(),
        "United States".to_string(),
        coords,
    )
    .unwrap();

    let task = TaskRequirements::simple(10);

    let block = make_block(
        AvailabilityKind::Available,
        CapabilitySet::free(),
        LocationConstraint::MustBeKnown,
        60,
    );
    assert!(!can_schedule_task_in_block(&task, &block, None));
    assert!(can_schedule_task_in_block(&task, &block, Some(&location)));

    let block = make_block(
        AvailabilityKind::Available,
        CapabilitySet::free(),
        LocationConstraint::MustBeUnknown,
        60,
    );
    assert!(can_schedule_task_in_block(&task, &block, None));
    assert!(!can_schedule_task_in_block(&task, &block, Some(&location)));
}

#[test]
fn test_mobility_constraint() {
    let mut task = TaskRequirements::simple(10);
    task.allowed_mobility = vec![Mobility::Stationary];

    let mut caps = CapabilitySet::free();
    caps.mobility = Mobility::Driving;
    let block = make_block(AvailabilityKind::Available, caps, LocationConstraint::Any, 60);
    assert!(!can_schedule_task_in_block(&task, &block, None));

    let block = make_block(
        AvailabilityKind::Available,
        CapabilitySet::free(),
        LocationConstraint::Any,
        60,
    );
    assert!(can_schedule_task_in_block(&task, &block, None));
}

#[test]
fn test_duration_check() {
    let task = TaskRequirements::simple(30);

    let block = make_block(
        AvailabilityKind::Available,
        CapabilitySet::free(),
        LocationConstraint::Any,
        20,
    );
    assert!(!can_schedule_task_in_block(&task, &block, None));

    let block = make_block(
        AvailabilityKind::Available,
        CapabilitySet::free(),
        LocationConstraint::Any,
        60,
    );
    assert!(can_schedule_task_in_block(&task, &block, None));
}

#[test]
fn test_find_candidate_slots_filters_blocks() {
    let task = TaskRequirements::simple(30);
    let open_block = make_block(
        AvailabilityKind::Available,
        CapabilitySet::free(),
        LocationConstraint::Any,
        60,
    );
    let closed_block = make_block(
        AvailabilityKind::Unavailable(UnavailableReason::Focus),
        CapabilitySet::free(),
        LocationConstraint::Any,
        60,
    );
    let blocks = vec![closed_block.clone(), open_block.clone(), closed_block.clone()];
    let slots = tsadaash::find_candidate_slots(&blocks, &task, None);
    assert_eq!(slots, vec![(open_block.start, open_block.end)]);
}
