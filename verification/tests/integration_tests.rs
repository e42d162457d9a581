use tsadaash::{
    can_schedule_task_in_block, expand_template, AvailabilityKind, AvailabilityLevel,
    CapabilitySet, DeviceAccess, GeoCoordinates, Location, LocationConstraint, Mobility,
    RecurringRule, ScheduleTemplate, TaskRequirements, TimeOfDay, Timestamp, UnavailableReason,
    Weekday,
};

fn tod(h: u32, m: u32, s: u32) -> TimeOfDay {
    TimeOfDay::from_hms(h, m, s).unwrap()
}

fn ts(y: i32, mo: u8, d: u8, h: u32, mi: u32, s: u32) -> Timestamp {
    Timestamp::from_ymd_hms(y, mo, d, h, mi, s).unwrap()
}

fn micro_task() -> TaskRequirements {
    TaskRequirements::simple(10)
}

fn computer_task(duration_minutes: u32) -> TaskRequirements {
    TaskRequirements {
        duration_minutes,
        requires_location: false,
        min_hands: AvailabilityLevel::Full,
        min_eyes: AvailabilityLevel::Full,
        min_speech: AvailabilityLevel::NotAvailable,
        min_cognitive: AvailabilityLevel::Full,
        min_device: DeviceAccess::Computer,
        allowed_mobility: vec![Mobility::Stationary],
    }
}

#[test]
fn test_typical_work_week_schedule() {
    // A 9-to-5 work week with a lunch break that overrides it.
    let work_rule = RecurringRule::new(
        vec![Weekday::Mon, Weekday::Tue, Weekday::Wed, Weekday::Thu, Weekday::Fri],
        tod(9, 0, 0),
        tod(17, 0, 0),
        AvailabilityKind::BusyButFlexible,
        CapabilitySet::free(),
        LocationConstraint::Any,
        Some("Work".to_string()),
        0,
    )
    .unwrap();

    let lunch_rule = RecurringRule::new(
        vec![Weekday::Mon, Weekday::Tue, Weekday::Wed, Weekday::Thu, Weekday::Fri],
        tod(12, 0, 0),
        tod(13, 0, 0),
        AvailabilityKind::Available,
        CapabilitySet::free(),
        LocationConstraint::Any,
        Some("Lunch".to_string()),
        10,
    )
    .unwrap();

    let template = ScheduleTemplate::new(
        "Work Week".to_string(),
        "America/New_York".to_string(),
        vec![work_rule, lunch_rule],
    )
    .unwrap();

    // Expand for Tuesday Feb 10, 2026.
    let start = ts(2026, 2, 10, 0, 0, 0);
    let end = ts(2026, 2, 11, 0, 0, 0);

    let blocks = expand_template(&template, start, end);

    // Exactly three blocks: work, lunch, work.
    assert_eq!(blocks.len(), 3);

    assert_eq!(blocks[0].label, Some("Work".to_string()));
    assert!(matches!(blocks[0].availability, AvailabilityKind::BusyButFlexible));
    assert_eq!(blocks[0].start, ts(2026, 2, 10, 9, 0, 0));
    assert_eq!(blocks[0].end, ts(2026, 2, 10, 12, 0, 0));

    assert_eq!(blocks[1].label, Some("Lunch".to_string()));
    assert!(matches!(blocks[1].availability, AvailabilityKind::Available));
    assert_eq!(blocks[1].start, ts(2026, 2, 10, 12, 0, 0));
    assert_eq!(blocks[1].end, ts(2026, 2, 10, 13, 0, 0));

    assert_eq!(blocks[2].label, Some("Work".to_string()));
    assert!(matches!(blocks[2].availability, AvailabilityKind::BusyButFlexible));
    assert_eq!(blocks[2].start, ts(2026, 2, 10, 13, 0, 0));
    assert_eq!(blocks[2].end, ts(2026, 2, 10, 17, 0, 0));

    // Micro tasks fit during work hours.
    let micro = micro_task();
    assert!(can_schedule_task_in_block(&micro, &blocks[0], None));

    // Computer tasks fit during lunch, not during busy-but-flexible work.
    let computer = computer_task(30);
    assert!(can_schedule_task_in_block(&computer, &blocks[1], None));
    assert!(!can_schedule_task_in_block(&computer, &blocks[0], None));
}

#[test]
fn test_overnight_sleep_schedule() {
    let sleep_rule = RecurringRule::new(
        vec![
            Weekday::Sun,
            Weekday::Mon,
            Weekday::Tue,
            Weekday::Wed,
            Weekday::Thu,
            Weekday::Fri,
            Weekday::Sat,
        ],
        tod(23, 0, 0),
        tod(7, 0, 0),
        AvailabilityKind::Unavailable(UnavailableReason::Sleep),
        CapabilitySet::free(),
        LocationConstraint::Any,
        Some("Sleep".to_string()),
        0,
    )
    .unwrap();

    let template = ScheduleTemplate::new(
        "Sleep Schedule".to_string(),
        "America/New_York".to_string(),
        vec![sleep_rule],
    )
    .unwrap();

    // Expand over a two-day window.
    let start = ts(2026, 2, 10, 0, 0, 0);
    let end = ts(2026, 2, 12, 0, 0, 0);

    let blocks = expand_template(&template, start, end);

    assert!(blocks.len() >= 2);

    for block in &blocks {
        assert!(matches!(
            block.availability,
            AvailabilityKind::Unavailable(UnavailableReason::Sleep)
        ));
        assert_eq!(block.label, Some("Sleep".to_string()));
    }

    // Coverage is continuous across midnight: the morning block runs from
    // the window start to 07:00, and the evening block from 23:00 runs
    // through midnight to 07:00 the next day without a gap.
    assert_eq!(blocks[0].start, ts(2026, 2, 10, 0, 0, 0));
    assert_eq!(blocks[0].end, ts(2026, 2, 10, 7, 0, 0));
    assert_eq!(blocks[1].start, ts(2026, 2, 10, 23, 0, 0));
    assert_eq!(blocks[1].end, ts(2026, 2, 11, 7, 0, 0));

    let task = TaskRequirements::simple(10);
    for block in &blocks {
        assert!(!can_schedule_task_in_block(&task, block, None));
    }
}

#[test]
fn test_commute_with_limited_capabilities() {
    let commute_rule = RecurringRule::new(
        vec![Weekday::Mon, Weekday::Tue, Weekday::Wed, Weekday::Thu, Weekday::Fri],
        tod(8, 0, 0),
        tod(9, 0, 0),
        AvailabilityKind::BusyButFlexible,
        CapabilitySet::in_transit(),
        LocationConstraint::Any,
        Some("Commute".to_string()),
        0,
    )
    .unwrap();

    let template = ScheduleTemplate::new(
        "Commute".to_string(),
        "America/New_York".to_string(),
        vec![commute_rule],
    )
    .unwrap();

    let start = ts(2026, 2, 10, 0, 0, 0);
    let end = ts(2026, 2, 11, 0, 0, 0);

    let blocks = expand_template(&template, start, end);

    assert_eq!(blocks.len(), 1);
    assert_eq!(blocks[0].capabilities.mobility, Mobility::InTransit);
    assert_eq!(blocks[0].capabilities.hands, AvailabilityLevel::Limited);
    assert_eq!(blocks[0].capabilities.device, DeviceAccess::PhoneOnly);

    let phone_task = TaskRequirements {
        duration_minutes: 10,
        requires_location: false,
        min_hands: AvailabilityLevel::Limited,
        min_eyes: AvailabilityLevel::Limited,
        min_speech: AvailabilityLevel::NotAvailable,
        min_cognitive: AvailabilityLevel::NotAvailable,
        min_device: DeviceAccess::PhoneOnly,
        allowed_mobility: vec![Mobility::InTransit],
    };

    assert!(can_schedule_task_in_block(&phone_task, &blocks[0], None));

    let computer = computer_task(10);
    assert!(!can_schedule_task_in_block(&computer, &blocks[0], None));
}

#[test]
fn test_location_based_availability() {
    let coords_home = GeoCoordinates::new(40_712_800, -74_006_000).unwrap();
    let home = Location::new(
        Some("Home".to_string()),
        "New York".to_string(),
        "United States".to_string(),
        coords_home,
    )
    .unwrap();

    let coords_work = GeoCoordinates::new(40_758_900, -73_985_100).unwrap();
    let work = Location::new(
        Some("Work".to_string()),
        "New York".to_string(),
        "United States".to_string(),
        coords_work,
    )
    .unwrap();

    let rule = RecurringRule::new(
        vec![Weekday::Tue],
        tod(9, 0, 0),
        tod(17, 0, 0),
        AvailabilityKind::Available,
        CapabilitySet::free(),
        LocationConstraint::MustBeOneOf(vec![home.clone(), work.clone()]),
        Some("At Known Location".to_string()),
        0,
    )
    .unwrap();

    let template = ScheduleTemplate::new(
        "Location Test".to_string(),
        "America/New_York".to_string(),
        vec![rule],
    )
    .unwrap();

    let start = ts(2026, 2, 10, 0, 0, 0);
    let end = ts(2026, 2, 11, 0, 0, 0);

    let blocks = expand_template(&template, start, end);
    assert_eq!(blocks.len(), 1);

    let task = TaskRequirements::simple(30);

    assert!(can_schedule_task_in_block(&task, &blocks[0], Some(&home)));
    assert!(can_schedule_task_in_block(&task, &blocks[0], Some(&work)));
    assert!(!can_schedule_task_in_block(&task, &blocks[0], None));

    let coords_other = GeoCoordinates::new(51_507_400, -127_800).unwrap();
    let other = Location::new(
        Some("Elsewhere".to_string()),
        "London".to_string(),
        "United Kingdom".to_string(),
        coords_other,
    )
    .unwrap();
    assert!(!can_schedule_task_in_block(&task, &blocks[0], Some(&other)));
}

#[test]
fn test_multiple_priority_overlaps() {
    let base = RecurringRule::new(
        vec![Weekday::Tue],
        tod(0, 0, 0),
        tod(23, 59, 0),
        AvailabilityKind::Available,
        CapabilitySet::free(),
        LocationConstraint::Any,
        Some("Available".to_string()),
        0,
    )
    .unwrap();

    let work = RecurringRule::new(
        vec![Weekday::Tue],
        tod(9, 0, 0),
        tod(17, 0, 0),
        AvailabilityKind::BusyButFlexible,
        CapabilitySet::free(),
        LocationConstraint::Any,
        Some("Work".to_string()),
        5,
    )
    .unwrap();

    let meeting = RecurringRule::new(
        vec![Weekday::Tue],
        tod(10, 0, 0),
        tod(11, 0, 0),
        AvailabilityKind::Unavailable(UnavailableReason::Appointment),
        CapabilitySet::free(),
        LocationConstraint::Any,
        Some("Meeting".to_string()),
        10,
    )
    .unwrap();

    let lunch = RecurringRule::new(
        vec![Weekday::Tue],
        tod(12, 0, 0),
        tod(13, 0, 0),
        AvailabilityKind::Available,
        CapabilitySet::free(),
        LocationConstraint::Any,
        Some("Lunch".to_string()),
        10,
    )
    .unwrap();

    let template = ScheduleTemplate::new(
        "Complex Schedule".to_string(),
        "America/New_York".to_string(),
        vec![base, work, meeting, lunch],
    )
    .unwrap();

    let start = ts(2026, 2, 10, 0, 0, 0);
    let end = ts(2026, 2, 11, 0, 0, 0);

    let blocks = expand_template(&template, start, end);

    let mut found_meeting = false;
    let mut found_lunch = false;
    let mut found_work = false;

    for block in &blocks {
        if block.label == Some("Meeting".to_string()) {
            found_meeting = true;
            assert!(matches!(block.availability, AvailabilityKind::Unavailable(_)));
        }
        if block.label == Some("Lunch".to_string()) {
            found_lunch = true;
            assert!(matches!(block.availability, AvailabilityKind::Available));
        }
        if block.label == Some("Work".to_string()) {
            found_work = true;
            assert!(matches!(block.availability, AvailabilityKind::BusyButFlexible));
        }
    }

    assert!(found_meeting, "Should have meeting block");
    assert!(found_lunch, "Should have lunch block");
    assert!(found_work, "Should have work blocks");
}

#[test]
fn test_same_priority_tie_breaking() {
    let rule1 = RecurringRule::new(
        vec![Weekday::Tue],
        tod(9, 0, 0),
        tod(12, 0, 0),
        AvailabilityKind::Available,
        CapabilitySet::free(),
        LocationConstraint::Any,
        Some("Rule1".to_string()),
        5,
    )
    .unwrap();

    let rule2 = RecurringRule::new(
        vec![Weekday::Tue],
        tod(10, 0, 0),
        tod(11, 0, 0),
        AvailabilityKind::Unavailable(UnavailableReason::Work),
        CapabilitySet::free(),
        LocationConstraint::Any,
        Some("Rule2".to_string()),
        5,
    )
    .unwrap();

    let template = ScheduleTemplate::new(
        "Tie Break Test".to_string(),
        "America/New_York".to_string(),
        vec![rule1, rule2],
    )
    .unwrap();

    let start = ts(2026, 2, 10, 0, 0, 0);
    let end = ts(2026, 2, 11, 0, 0, 0);

    let blocks = expand_template(&template, start, end);

    assert!(!blocks.is_empty());

    // The 10:00 to 11:00 slot resolves to the more restrictive rule.
    let middle_block = blocks
        .iter()
        .find(|b| b.start == ts(2026, 2, 10, 10, 0, 0) || b.label == Some("Rule2".to_string()));

    let block = middle_block.expect("the overlapped slot must be present");
    assert!(matches!(block.availability, AvailabilityKind::Unavailable(_)));
    assert_eq!(block.start, ts(2026, 2, 10, 10, 0, 0));
    assert_eq!(block.end, ts(2026, 2, 10, 11, 0, 0));
}

#[test]
fn test_full_week_expansion_with_weekend_gap() {
    let work_rule = RecurringRule::new(
        vec![Weekday::Mon, Weekday::Tue, Weekday::Wed, Weekday::Thu, Weekday::Fri],
        tod(9, 0, 0),
        tod(17, 0, 0),
        AvailabilityKind::BusyButFlexible,
        CapabilitySet::free(),
        LocationConstraint::Any,
        Some("Work".to_string()),
        0,
    )
    .unwrap();
    let lunch_rule = RecurringRule::new(
        vec![Weekday::Mon, Weekday::Tue, Weekday::Wed, Weekday::Thu, Weekday::Fri],
        tod(12, 0, 0),
        tod(13, 0, 0),
        AvailabilityKind::Available,
        CapabilitySet::free(),
        LocationConstraint::Any,
        Some("Lunch".to_string()),
        10,
    )
    .unwrap();
    let template = ScheduleTemplate::new(
        "Week".to_string(),
        "Europe/Paris".to_string(),
        vec![work_rule, lunch_rule],
    )
    .unwrap();

    // Monday Feb 9 through Sunday Feb 15, 2026.
    let start = ts(2026, 2, 9, 0, 0, 0);
    let end = ts(2026, 2, 16, 0, 0, 0);
    let blocks = expand_template(&template, start, end);

    // Three blocks per working day, none on the weekend: uncovered time
    // yields no block at all.
    assert_eq!(blocks.len(), 15);
    for window in blocks.windows(2) {
        assert!(window[0].end.le(&window[1].start), "blocks must be ordered and disjoint");
    }
    for block in &blocks {
        assert!(block.start.date.day >= 9 && block.end.date.day <= 13);
    }
}
