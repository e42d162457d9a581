use tsadaash::{Continents, Date, Month, RecurringRuleId, ScheduleTemplateId, TaskId, TimeOfDay,
    Timestamp, UserId, Weekday};

#[test]
fn test_known_weekdays() {
    // Feb 2, 2026 is a Monday; Feb 1, 2026 is a Sunday.
    let mon = Date::new(2026, 2, 2).unwrap();
    assert_eq!(mon.weekday(), Weekday::Mon);
    let sun = Date::new(2026, 2, 1).unwrap();
    assert_eq!(sun.weekday(), Weekday::Sun);
    // Feb 29, 2024 was a Thursday.
    let leap = Date::new(2024, 2, 29).unwrap();
    assert_eq!(leap.weekday(), Weekday::Thu);
}

#[test]
fn test_date_validation() {
    assert!(Date::new(2026, 2, 29).is_none());
    assert!(Date::new(2024, 2, 29).is_some());
    assert!(Date::new(2026, 4, 31).is_none());
    assert!(Date::new(2026, 13, 1).is_none());
    assert!(Date::new(2026, 0, 1).is_none());
    assert!(Date::new(2026, 12, 31).is_some());
}

#[test]
fn test_next_and_prev_day() {
    let d = Date::new(2026, 2, 28).unwrap();
    assert_eq!(d.next_day(), Date::new(2026, 3, 1).unwrap());
    let e = Date::new(2026, 1, 1).unwrap();
    assert_eq!(e.prev_day(), Date::new(2025, 12, 31).unwrap());
    let leap = Date::new(2024, 2, 28).unwrap();
    assert_eq!(leap.next_day(), Date::new(2024, 2, 29).unwrap());
}

#[test]
fn test_timestamp_ordering() {
    let a = Timestamp::from_ymd_hms(2026, 2, 10, 9, 0, 0).unwrap();
    let b = Timestamp::from_ymd_hms(2026, 2, 10, 9, 0, 1).unwrap();
    let c = Timestamp::from_ymd_hms(2026, 2, 11, 0, 0, 0).unwrap();
    assert!(a.lt(&b));
    assert!(b.lt(&c));
    assert!(a.le(&a));
    assert!(!c.le(&a));
}

#[test]
fn test_days_between() {
    let a = Timestamp::from_ymd_hms(2026, 1, 1, 0, 0, 0).unwrap();
    let b = Timestamp::from_ymd_hms(2026, 1, 4, 0, 0, 0).unwrap();
    assert_eq!(a.days_between(&b), 3);
    assert_eq!(b.days_between(&a), 3);
    // A partial day truncates toward zero.
    let c = Timestamp::from_ymd_hms(2026, 1, 4, 23, 59, 59).unwrap();
    assert_eq!(a.days_between(&c), 3);
}

#[test]
fn test_time_of_day_bounds() {
    assert!(TimeOfDay::from_hms(23, 59, 59).is_some());
    assert!(TimeOfDay::from_hms(24, 0, 0).is_none());
    assert_eq!(TimeOfDay::from_hms(1, 2, 3).unwrap().sec, 3723);
}

#[test]
fn test_month_numbers() {
    assert_eq!(Month::January.number(), 1);
    assert_eq!(Month::December.number(), 12);
    assert_eq!(Month::from_number(7), Some(Month::July));
    assert_eq!(Month::from_number(0), None);
    assert_eq!(Month::from_number(13), None);
}

#[test]
fn test_continents_menu() {
    let all = Continents::iter();
    assert_eq!(all.len(), 9);
    assert_eq!(all[0], Continents::Africa);
    assert_eq!(Continents::from_choice(1), Some(Continents::Africa));
    assert_eq!(Continents::from_choice(9), Some(Continents::Pacific));
    assert_eq!(Continents::from_choice(0), None);
    assert_eq!(Continents::from_choice(10), None);
    assert_eq!(Continents::Europe.name(), "Europe");
}

#[test]
fn test_identifier_wrappers() {
    assert_eq!(UserId::new(7).value(), 7);
    assert_eq!(TaskId::new(9).value(), 9);
    assert_eq!(ScheduleTemplateId::new(11).value(), 11);
    assert_eq!(RecurringRuleId::new(13).value(), 13);
}
