use tsadaash::{
    AvailabilityKind, CapabilitySet, LocationConstraint, RecurringRule, ScheduleTemplate,
    TimeOfDay, Weekday,
};

fn tod(h: u32, m: u32, s: u32) -> TimeOfDay {
    TimeOfDay::from_hms(h, m, s).unwrap()
}

#[test]
fn test_recurring_rule_is_overnight() {
    let rule_normal = RecurringRule::new(
        vec![Weekday::Mon],
        tod(9, 0, 0),
        tod(17, 0, 0),
        AvailabilityKind::Available,
        CapabilitySet::free(),
        LocationConstraint::Any,
        None,
        0,
    )
    .unwrap();
    assert!(!rule_normal.is_overnight());

    let rule_overnight = RecurringRule::new(
        vec![Weekday::Mon],
        tod(23, 0, 0),
        tod(7, 0, 0),
        AvailabilityKind::Available,
        CapabilitySet::free(),
        LocationConstraint::Any,
        None,
        0,
    )
    .unwrap();
    assert!(rule_overnight.is_overnight());
}

#[test]
fn test_recurring_rule_validation() {
    let result = RecurringRule::new(
        vec![],
        tod(9, 0, 0),
        tod(17, 0, 0),
        AvailabilityKind::Available,
        CapabilitySet::free(),
        LocationConstraint::Any,
        None,
        0,
    );
    assert!(result.is_err());

    let result = RecurringRule::new(
        vec![Weekday::Mon, Weekday::Tue],
        tod(9, 0, 0),
        tod(17, 0, 0),
        AvailabilityKind::Available,
        CapabilitySet::free(),
        LocationConstraint::Any,
        Some("Work".to_string()),
        5,
    );
    assert!(result.is_ok());
}

#[test]
fn test_schedule_template_validation() {
    let result = ScheduleTemplate::new("".to_string(), "America/New_York".to_string(), vec![]);
    assert!(result.is_err());

    let result = ScheduleTemplate::new("My Schedule".to_string(), "".to_string(), vec![]);
    assert!(result.is_err());

    let result = ScheduleTemplate::new(
        "My Schedule".to_string(),
        "America/New_York".to_string(),
        vec![],
    );
    assert!(result.is_ok());
}
