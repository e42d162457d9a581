use tsadaash::{
    DayConstraint, Month, MonthConstraint, MonthWeekPosition, NthWeekdayOfMonth, Periodicity,
    PeriodicityBuilder, RepetitionUnit, Timestamp, Weekday,
};

#[test]
fn test_builder_daily_on_weekdays() {
    let periodicity = PeriodicityBuilder::new()
        .daily(1)
        .on_weekdays(vec![Weekday::Mon, Weekday::Wed, Weekday::Fri])
        .build()
        .unwrap();

    assert_eq!(periodicity.rep_unit, RepetitionUnit::Day);
    assert_eq!(periodicity.rep_per_unit, Some(1));
}

#[test]
fn test_builder_monthly_specific_days() {
    let periodicity = PeriodicityBuilder::new()
        .daily(1)
        .on_month_days(vec![13, 24])
        .in_months(vec![Month::January, Month::February])
        .build()
        .unwrap();

    assert_eq!(periodicity.rep_unit, RepetitionUnit::Day);
    assert!(periodicity.constraints.month_constraint.is_some());
    assert!(matches!(
        periodicity.constraints.day_constraint,
        Some(DayConstraint::SpecificDaysMonthFromFirst(_))
    ));
    if let Some(DayConstraint::SpecificDaysMonthFromFirst(days)) =
        &periodicity.constraints.day_constraint
    {
        assert_eq!(days, &vec![12u8, 23u8]);
    }
    assert!(matches!(
        periodicity.constraints.month_constraint,
        Some(MonthConstraint::SpecificMonths(_))
    ));
}

#[test]
fn test_convenience_daily() {
    let periodicity = Periodicity::daily().unwrap();
    assert_eq!(periodicity.rep_unit, RepetitionUnit::Day);
    assert_eq!(periodicity.rep_per_unit, Some(1));
}

#[test]
fn test_nth_weekday_constructors() {
    let first_monday = NthWeekdayOfMonth::first(Weekday::Mon);
    assert_eq!(first_monday.weekday, Weekday::Mon);
    assert_eq!(first_monday.position, MonthWeekPosition::FromFirst(0));

    let last_friday = NthWeekdayOfMonth::last(Weekday::Fri);
    assert_eq!(last_friday.weekday, Weekday::Fri);
    assert_eq!(last_friday.position, MonthWeekPosition::FromLast(0));
}

#[test]
fn test_unique_date() {
    let date = Timestamp::from_ymd_hms(2026, 6, 15, 10, 30, 0).unwrap();
    let periodicity = Periodicity::unique(date).unwrap();

    assert_eq!(periodicity.rep_unit, RepetitionUnit::Never);
    assert!(periodicity.special_pattern.is_some());
}

#[test]
fn test_building_twice_yields_equal_values() {
    let build = || {
        PeriodicityBuilder::new()
            .daily(2)
            .on_month_days(vec![13, 24])
            .in_months(vec![Month::January, Month::February])
            .between(
                Timestamp::from_ymd_hms(2026, 1, 1, 0, 0, 0).unwrap(),
                Timestamp::from_ymd_hms(2026, 12, 31, 0, 0, 0).unwrap(),
            )
            .build()
    };
    let first = build();
    let second = build();
    assert!(first.is_ok() && second.is_ok());
    assert_eq!(first.unwrap(), second.unwrap());

    let bad = || PeriodicityBuilder::new().daily(0).build();
    assert_eq!(bad().is_err(), bad().is_err());
}

#[test]
fn test_last_setter_wins_per_category() {
    let periodicity = PeriodicityBuilder::new()
        .daily(1)
        .on_weekdays(vec![Weekday::Mon])
        .on_month_days(vec![5])
        .build()
        .unwrap();

    assert!(matches!(
        periodicity.constraints.day_constraint,
        Some(DayConstraint::SpecificDaysMonthFromFirst(_))
    ));
}
