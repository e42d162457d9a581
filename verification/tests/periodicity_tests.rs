use tsadaash::{
    DayConstraint, Month, Periodicity, PeriodicityBuilder, PeriodicityConstraints,
    NthWeekdayOfMonth, RepetitionUnit, SpecialPattern, Timestamp, UniqueDate, ValidationError,
    Weekday,
};

fn ts(y: i32, mo: u8, d: u8, h: u32, mi: u32, s: u32) -> Timestamp {
    Timestamp::from_ymd_hms(y, mo, d, h, mi, s).unwrap()
}

fn plain(rep_unit: RepetitionUnit, rep_per_unit: Option<u8>) -> Periodicity {
    Periodicity {
        rep_unit,
        rep_per_unit,
        occurrence_settings: None,
        constraints: PeriodicityConstraints::new(),
        timeframe: None,
        week_start: Weekday::Mon,
        special_pattern: None,
        reference_date: None,
    }
}

#[test]
fn test_simple_daily_task() {
    let result = Periodicity::daily();
    assert!(result.is_ok());
    let p = result.unwrap();
    assert_eq!(p.rep_unit, RepetitionUnit::Day);
    assert_eq!(p.rep_per_unit, Some(1));
}

#[test]
fn test_simple_weekly_task() {
    let result = Periodicity::weekly();
    assert!(result.is_ok());
    let p = result.unwrap();
    assert_eq!(p.rep_unit, RepetitionUnit::Week);
    assert_eq!(p.rep_per_unit, Some(1));
}

#[test]
fn test_simple_monthly_task() {
    let result = Periodicity::monthly();
    assert!(result.is_ok());
    let p = result.unwrap();
    assert_eq!(p.rep_unit, RepetitionUnit::Month);
    assert_eq!(p.rep_per_unit, Some(1));
}

#[test]
fn test_unique_date_task() {
    let date = ts(2026, 12, 25, 0, 0, 0);
    let result = Periodicity::unique(date);
    assert!(result.is_ok());
    let p = result.unwrap();
    assert_eq!(p.rep_unit, RepetitionUnit::Never);
    assert!(p.special_pattern.is_some());
}

#[test]
fn test_user_example_13th_24th_jan_feb() {
    // Task on the 13th and 24th of each month, but only in January and
    // February.
    let result = PeriodicityBuilder::new()
        .daily(1)
        .on_month_days(vec![13, 24])
        .in_months(vec![Month::January, Month::February])
        .build();

    assert!(result.is_ok());
    let p = result.unwrap();

    assert_eq!(p.rep_unit, RepetitionUnit::Day);
    assert!(matches!(
        p.constraints.day_constraint,
        Some(DayConstraint::SpecificDaysMonthFromFirst(_))
    ));

    let jan_13 = ts(2026, 1, 13, 10, 0, 0);
    let jan_24 = ts(2026, 1, 24, 10, 0, 0);
    let feb_13 = ts(2026, 2, 13, 10, 0, 0);
    let mar_13 = ts(2026, 3, 13, 10, 0, 0);
    let jan_15 = ts(2026, 1, 15, 10, 0, 0);

    assert!(p.matches_constraints(&jan_13), "Should match Jan 13th");
    assert!(p.matches_constraints(&jan_24), "Should match Jan 24th");
    assert!(p.matches_constraints(&feb_13), "Should match Feb 13th");
    assert!(!p.matches_constraints(&mar_13), "Should NOT match Mar 13th (wrong month)");
    assert!(!p.matches_constraints(&jan_15), "Should NOT match Jan 15th (wrong day)");
}

#[test]
fn test_three_times_daily_on_mondays() {
    let result = PeriodicityBuilder::new()
        .daily(3)
        .on_weekdays(vec![Weekday::Mon])
        .build();

    assert!(result.is_ok());
    let p = result.unwrap();
    assert_eq!(p.rep_per_unit, Some(3));

    let monday = ts(2026, 2, 2, 10, 0, 0);
    assert!(p.matches_constraints(&monday));

    let tuesday = ts(2026, 2, 3, 10, 0, 0);
    assert!(!p.matches_constraints(&tuesday));
}

#[test]
fn test_first_monday_of_month() {
    let result = PeriodicityBuilder::new()
        .daily(1)
        .on_nth_weekdays(vec![NthWeekdayOfMonth::first(Weekday::Mon)])
        .build();

    assert!(result.is_ok());
    let p = result.unwrap();

    let first_monday_feb = ts(2026, 2, 2, 10, 0, 0);
    assert!(p.matches_constraints(&first_monday_feb));

    let second_monday_feb = ts(2026, 2, 9, 10, 0, 0);
    assert!(!p.matches_constraints(&second_monday_feb));
}

#[test]
fn test_last_day_of_month() {
    let result = PeriodicityBuilder::new()
        .daily(1)
        .on_month_days_from_end(vec![1])
        .build();

    assert!(result.is_ok());
    let p = result.unwrap();

    let jan_31 = ts(2026, 1, 31, 10, 0, 0);
    assert!(p.matches_constraints(&jan_31));

    let jan_30 = ts(2026, 1, 30, 10, 0, 0);
    assert!(!p.matches_constraints(&jan_30));

    let feb_28 = ts(2026, 2, 28, 10, 0, 0);
    assert!(p.matches_constraints(&feb_28));
}

#[test]
fn test_weekdays_only() {
    let result = Periodicity::on_weekdays(vec![
        Weekday::Mon,
        Weekday::Tue,
        Weekday::Wed,
        Weekday::Thu,
        Weekday::Fri,
    ]);

    assert!(result.is_ok());
    let p = result.unwrap();

    let monday = ts(2026, 2, 2, 10, 0, 0);
    assert!(p.matches_constraints(&monday));

    let saturday = ts(2026, 2, 7, 10, 0, 0);
    assert!(!p.matches_constraints(&saturday));
}

#[test]
fn test_with_timeframe() {
    let start = ts(2026, 2, 1, 0, 0, 0);
    let end = ts(2026, 3, 1, 0, 0, 0);

    let result = PeriodicityBuilder::new().daily(1).between(start, end).build();

    assert!(result.is_ok());
    let p = result.unwrap();

    let in_range = ts(2026, 2, 15, 10, 0, 0);
    assert!(p.is_within_timeframe(&in_range));

    let before = ts(2026, 1, 15, 10, 0, 0);
    assert!(!p.is_within_timeframe(&before));

    let after = ts(2026, 3, 15, 10, 0, 0);
    assert!(!p.is_within_timeframe(&after));
}

#[test]
fn test_invalid_rep_unit_none_with_count() {
    let date = ts(2026, 5, 5, 9, 0, 0);
    let builder = PeriodicityBuilder::new().unique(date);
    assert!(builder.build().is_ok());
}

#[test]
fn test_invalid_missing_rep_per_unit() {
    let p = plain(RepetitionUnit::Day, None);

    let result = p.validate();
    assert!(result.is_err());
    match result {
        Err(ValidationError::MissingRequired { field, .. }) => {
            assert_eq!(field, "rep_per_unit");
        }
        _ => panic!("Expected MissingRequired error"),
    }
}

#[test]
fn test_invalid_zero_rep_count() {
    let p = plain(RepetitionUnit::Day, Some(0));
    assert!(p.validate().is_err());
}

#[test]
fn test_invalid_empty_weekdays() {
    let result = PeriodicityBuilder::new().daily(1).on_weekdays(vec![]).build();
    assert!(result.is_err());
}

#[test]
fn test_invalid_duplicate_weekdays() {
    let mut p = plain(RepetitionUnit::Day, Some(1));
    p.constraints.day_constraint =
        Some(DayConstraint::SpecificDaysWeek(vec![Weekday::Mon, Weekday::Mon]));
    assert!(p.validate().is_err());
}

#[test]
fn test_invalid_month_day_out_of_range() {
    let mut p = plain(RepetitionUnit::Day, Some(1));
    p.constraints.day_constraint = Some(DayConstraint::SpecificDaysMonthFromFirst(vec![31]));
    assert!(p.validate().is_err());
}

#[test]
fn test_invalid_every_n_days_zero() {
    let mut p = plain(RepetitionUnit::Day, Some(1));
    p.constraints.day_constraint = Some(DayConstraint::EveryNDays(0));
    assert!(p.validate().is_err());
}

#[test]
fn test_invalid_every_n_days_too_large() {
    let mut p = plain(RepetitionUnit::Day, Some(1));
    p.constraints.day_constraint = Some(DayConstraint::EveryNDays(367));
    assert!(p.validate().is_err());
}

#[test]
fn test_invalid_timeframe_start_after_end() {
    let start = ts(2026, 3, 1, 0, 0, 0);
    let end = ts(2026, 2, 1, 0, 0, 0);

    let result = PeriodicityBuilder::new().daily(1).between(start, end).build();
    assert!(result.is_err());
}

#[test]
fn test_invalid_special_pattern_with_constraints() {
    let date = ts(2026, 7, 1, 0, 0, 0);
    let mut p = plain(RepetitionUnit::Never, None);
    p.special_pattern = Some(SpecialPattern::Unique(UniqueDate { date }));
    p.constraints.day_constraint = Some(DayConstraint::EveryDay);

    assert!(p.validate().is_err());
}

#[test]
fn test_complex_multiple_constraints() {
    // Twice per day, on Mondays, in the first week of the month, only in
    // the first quarter.
    let result = PeriodicityBuilder::new()
        .daily(2)
        .on_weekdays(vec![Weekday::Mon])
        .on_weeks_of_month(vec![1])
        .in_months(vec![Month::January, Month::February, Month::March])
        .build();

    assert!(result.is_ok());
    let p = result.unwrap();

    assert!(p.constraints.day_constraint.is_some());
    assert!(p.constraints.week_constraint.is_some());
    assert!(p.constraints.month_constraint.is_some());
}

#[test]
fn test_builder_chaining() {
    let result = PeriodicityBuilder::new()
        .daily(1)
        .on_weekdays(vec![Weekday::Sat, Weekday::Sun])
        .week_starts_on(Weekday::Sun)
        .build();

    assert!(result.is_ok());
    let p = result.unwrap();
    assert_eq!(p.week_start, Weekday::Sun);
}

#[test]
fn test_leap_year_feb_29() {
    let result = PeriodicityBuilder::new()
        .daily(1)
        .on_month_days(vec![29])
        .in_months(vec![Month::February])
        .build();

    assert!(result.is_ok());
    let p = result.unwrap();

    // 2024 is a leap year.
    let feb_29_2024 = ts(2024, 2, 29, 10, 0, 0);
    assert!(p.matches_constraints(&feb_29_2024));
}

#[test]
fn test_month_with_varying_days() {
    // The last three days of each month.
    let result = PeriodicityBuilder::new()
        .daily(1)
        .on_month_days_from_end(vec![1, 2, 3])
        .build();

    assert!(result.is_ok());
    let p = result.unwrap();

    let jan_29 = ts(2026, 1, 29, 10, 0, 0);
    let jan_31 = ts(2026, 1, 31, 10, 0, 0);
    assert!(p.matches_constraints(&jan_29));
    assert!(p.matches_constraints(&jan_31));

    let feb_26 = ts(2026, 2, 26, 10, 0, 0);
    let feb_28 = ts(2026, 2, 28, 10, 0, 0);
    assert!(p.matches_constraints(&feb_26));
    assert!(p.matches_constraints(&feb_28));
}

#[test]
fn test_max_repetition_counts() {
    let daily_max = PeriodicityBuilder::new().daily(100).build();
    assert!(daily_max.is_ok());

    let daily_over = PeriodicityBuilder::new().daily(101).build();
    assert!(daily_over.is_err());

    let yearly_max = PeriodicityBuilder::new().yearly(255).build();
    assert!(yearly_max.is_ok());
}

#[test]
fn test_concurrent_week_and_month_constraints() {
    let result = PeriodicityBuilder::new()
        .weekly(1)
        .on_weeks_of_month(vec![1, 3])
        .in_months(vec![Month::June, Month::December])
        .build();

    assert!(result.is_ok());
}

#[test]
fn test_week_of_month_february_2026_monday_start() {
    // February 2026: starts Sunday Feb 1, ends Saturday Feb 28. With a
    // Monday week start, Feb 1 belongs to January's last week and gets no
    // week of month.
    let feb_1 = ts(2026, 2, 1, 12, 0, 0);
    let week = Periodicity::week_of_month_from_first(&feb_1, Weekday::Mon);
    assert_eq!(week, None, "Feb 1 (Sun) belongs to the previous month");

    let feb_2 = ts(2026, 2, 2, 12, 0, 0);
    assert_eq!(Periodicity::week_of_month_from_first(&feb_2, Weekday::Mon), Some(0));

    let feb_8 = ts(2026, 2, 8, 12, 0, 0);
    assert_eq!(Periodicity::week_of_month_from_first(&feb_8, Weekday::Mon), Some(0));

    let feb_9 = ts(2026, 2, 9, 12, 0, 0);
    assert_eq!(Periodicity::week_of_month_from_first(&feb_9, Weekday::Mon), Some(1));

    let feb_15 = ts(2026, 2, 15, 12, 0, 0);
    assert_eq!(Periodicity::week_of_month_from_first(&feb_15, Weekday::Mon), Some(1));

    let feb_16 = ts(2026, 2, 16, 12, 0, 0);
    assert_eq!(Periodicity::week_of_month_from_first(&feb_16, Weekday::Mon), Some(2));

    let feb_22 = ts(2026, 2, 22, 12, 0, 0);
    assert_eq!(Periodicity::week_of_month_from_first(&feb_22, Weekday::Mon), Some(2));

    let feb_23 = ts(2026, 2, 23, 12, 0, 0);
    assert_eq!(Periodicity::week_of_month_from_first(&feb_23, Weekday::Mon), Some(3));

    let feb_28 = ts(2026, 2, 28, 12, 0, 0);
    assert_eq!(Periodicity::week_of_month_from_first(&feb_28, Weekday::Mon), Some(3));

    let weeks_count = Periodicity::weeks_in_month(2026, 2, Weekday::Mon);
    assert_eq!(weeks_count, 4, "February 2026 should have 4 weeks with Monday start");
}

#[test]
fn test_week_constraint_first_two_weeks() {
    let periodicity = PeriodicityBuilder::new()
        .daily(1)
        .on_weeks_of_month(vec![1, 2])
        .week_starts_on(Weekday::Mon)
        .build()
        .unwrap();

    let feb_1 = ts(2026, 2, 1, 12, 0, 0);
    assert!(!periodicity.matches_constraints(&feb_1), "Feb 1 (Sun, pre-week-0) should not match");

    let feb_2 = ts(2026, 2, 2, 12, 0, 0);
    assert!(periodicity.matches_constraints(&feb_2), "Feb 2 (Mon, week 0) should match");

    let feb_8 = ts(2026, 2, 8, 12, 0, 0);
    assert!(periodicity.matches_constraints(&feb_8), "Feb 8 (Sun, week 0) should match");

    let feb_9 = ts(2026, 2, 9, 12, 0, 0);
    assert!(periodicity.matches_constraints(&feb_9), "Feb 9 (Mon, week 1) should match");

    let feb_15 = ts(2026, 2, 15, 12, 0, 0);
    assert!(periodicity.matches_constraints(&feb_15), "Feb 15 (Sun, week 1) should match");

    let feb_16 = ts(2026, 2, 16, 12, 0, 0);
    assert!(!periodicity.matches_constraints(&feb_16), "Feb 16 (Mon, week 2) should NOT match");

    let feb_23 = ts(2026, 2, 23, 12, 0, 0);
    assert!(!periodicity.matches_constraints(&feb_23), "Feb 23 (Mon, week 3) should NOT match");
}

#[test]
fn test_weeks_in_different_months() {
    let jan_weeks = Periodicity::weeks_in_month(2026, 1, Weekday::Mon);
    assert!((4..=5).contains(&jan_weeks), "January 2026 should have 4-5 weeks, got {}", jan_weeks);

    let mar_weeks = Periodicity::weeks_in_month(2026, 3, Weekday::Mon);
    assert!((4..=5).contains(&mar_weeks), "March 2026 should have 4-5 weeks, got {}", mar_weeks);

    let feb_weeks = Periodicity::weeks_in_month(2026, 2, Weekday::Mon);
    assert_eq!(feb_weeks, 4, "February 2026 should have exactly 4 weeks");
}

#[test]
fn test_every_n_days_with_reference_date() {
    let reference = ts(2026, 1, 1, 0, 0, 0);

    let periodicity = PeriodicityBuilder::new()
        .daily(1)
        .every_n_days(3)
        .with_reference_date(reference)
        .build()
        .unwrap();

    assert!(periodicity.matches_constraints(&reference), "Jan 1 (day 0) should match");

    let jan_4 = ts(2026, 1, 4, 0, 0, 0);
    assert!(periodicity.matches_constraints(&jan_4), "Jan 4 (day 3) should match");

    let jan_3 = ts(2026, 1, 3, 0, 0, 0);
    assert!(!periodicity.matches_constraints(&jan_3), "Jan 3 (day 2) should NOT match");

    let jan_7 = ts(2026, 1, 7, 0, 0, 0);
    assert!(periodicity.matches_constraints(&jan_7), "Jan 7 (day 6) should match");

    let jan_6 = ts(2026, 1, 6, 0, 0, 0);
    assert!(!periodicity.matches_constraints(&jan_6), "Jan 6 (day 5) should NOT match");
}

#[test]
fn test_every_n_weeks_with_reference_date() {
    let reference = ts(2026, 1, 5, 0, 0, 0);

    let periodicity = PeriodicityBuilder::new()
        .weekly(1)
        .every_n_weeks(2)
        .week_starts_on(Weekday::Mon)
        .with_reference_date(reference)
        .build()
        .unwrap();

    let jan_5 = ts(2026, 1, 5, 12, 0, 0);
    assert!(periodicity.matches_constraints(&jan_5), "Jan 5 (Mon, week 0) should match");

    let jan_10 = ts(2026, 1, 10, 12, 0, 0);
    assert!(periodicity.matches_constraints(&jan_10), "Jan 10 (Sat, week 0) should match");

    let jan_12 = ts(2026, 1, 12, 12, 0, 0);
    assert!(!periodicity.matches_constraints(&jan_12), "Jan 12 (Mon, week 1) should NOT match");

    let jan_19 = ts(2026, 1, 19, 12, 0, 0);
    assert!(periodicity.matches_constraints(&jan_19), "Jan 19 (Mon, week 2) should match");

    let jan_23 = ts(2026, 1, 23, 12, 0, 0);
    assert!(periodicity.matches_constraints(&jan_23), "Jan 23 (Fri, week 2) should match");

    let jan_26 = ts(2026, 1, 26, 12, 0, 0);
    assert!(!periodicity.matches_constraints(&jan_26), "Jan 26 (Mon, week 3) should NOT match");
}

#[test]
fn test_every_n_months_with_reference_date() {
    let reference = ts(2026, 1, 15, 0, 0, 0);

    let periodicity = PeriodicityBuilder::new()
        .monthly(1)
        .every_n_months(2)
        .with_reference_date(reference)
        .build()
        .unwrap();

    let jan_20 = ts(2026, 1, 20, 0, 0, 0);
    assert!(periodicity.matches_constraints(&jan_20), "January (month 0) should match");

    let feb_15 = ts(2026, 2, 15, 0, 0, 0);
    assert!(!periodicity.matches_constraints(&feb_15), "February (month 1) should NOT match");

    let mar_15 = ts(2026, 3, 15, 0, 0, 0);
    assert!(periodicity.matches_constraints(&mar_15), "March (month 2) should match");

    let apr_15 = ts(2026, 4, 15, 0, 0, 0);
    assert!(!periodicity.matches_constraints(&apr_15), "April (month 3) should NOT match");

    let may_15 = ts(2026, 5, 15, 0, 0, 0);
    assert!(periodicity.matches_constraints(&may_15), "May (month 4) should match");
}

#[test]
fn test_every_n_years_with_reference_date() {
    let reference = ts(2026, 6, 15, 0, 0, 0);

    let periodicity = PeriodicityBuilder::new()
        .yearly(1)
        .every_n_years(2)
        .with_reference_date(reference)
        .build()
        .unwrap();

    let y2026 = ts(2026, 8, 20, 0, 0, 0);
    assert!(periodicity.matches_constraints(&y2026), "2026 (year 0) should match");

    let y2027 = ts(2027, 6, 15, 0, 0, 0);
    assert!(!periodicity.matches_constraints(&y2027), "2027 (year 1) should NOT match");

    let y2028 = ts(2028, 6, 15, 0, 0, 0);
    assert!(periodicity.matches_constraints(&y2028), "2028 (year 2) should match");

    let y2030 = ts(2030, 6, 15, 0, 0, 0);
    assert!(periodicity.matches_constraints(&y2030), "2030 (year 4) should match");
}

#[test]
fn test_reference_date_fallback_to_timeframe() {
    let timeframe_start = ts(2026, 1, 10, 0, 0, 0);
    let timeframe_end = ts(2026, 12, 31, 23, 59, 59);

    let periodicity = PeriodicityBuilder::new()
        .daily(1)
        .every_n_days(5)
        .between(timeframe_start, timeframe_end)
        .build()
        .unwrap();

    assert!(periodicity.matches_constraints(&timeframe_start), "Jan 10 (day 0) should match");

    let jan_15 = ts(2026, 1, 15, 0, 0, 0);
    assert!(periodicity.matches_constraints(&jan_15), "Jan 15 (day 5) should match");

    let jan_14 = ts(2026, 1, 14, 0, 0, 0);
    assert!(!periodicity.matches_constraints(&jan_14), "Jan 14 (day 4) should NOT match");
}

#[test]
fn test_reference_date_fallback_to_current_date() {
    let periodicity = PeriodicityBuilder::new().daily(1).every_n_days(7).build().unwrap();

    let any_date = ts(2026, 5, 20, 0, 0, 0);
    assert!(
        periodicity.matches_constraints(&any_date),
        "Any date should match (0 days from itself)"
    );
}

#[test]
fn test_timeframe_half_open_boundaries() {
    let start = ts(2026, 2, 1, 0, 0, 0);
    let end = ts(2026, 3, 1, 0, 0, 0);
    let p = PeriodicityBuilder::new().daily(1).between(start, end).build().unwrap();

    assert!(p.is_within_timeframe(&start), "start is inside the half-open timeframe");
    assert!(!p.is_within_timeframe(&end), "end is outside the half-open timeframe");
}

#[test]
fn test_custom_dates_sorted_and_deduplicated() {
    let d1 = ts(2026, 3, 10, 9, 0, 0);
    let d2 = ts(2026, 1, 5, 9, 0, 0);
    let d3 = ts(2026, 1, 5, 9, 0, 0);
    let built = PeriodicityBuilder::new()
        .custom_dates(vec![d1, d2, d3])
        .unwrap()
        .build()
        .unwrap();
    match &built.special_pattern {
        Some(SpecialPattern::Custom(custom)) => {
            assert_eq!(custom.dates, vec![d2, d1]);
        }
        _ => panic!("Expected a custom pattern"),
    }
    assert!(built.matches_constraints(&d1));
    assert!(built.matches_constraints(&d2));
    assert!(!built.matches_constraints(&ts(2026, 1, 6, 9, 0, 0)));

    let empty = PeriodicityBuilder::new().custom_dates(vec![]);
    assert!(empty.is_err());
}

#[test]
fn test_last_friday_of_month() {
    let p = PeriodicityBuilder::new()
        .daily(1)
        .on_nth_weekdays(vec![NthWeekdayOfMonth::last(Weekday::Fri)])
        .build()
        .unwrap();

    // January 2026 ends on Saturday the 31st; its last Friday is the 30th.
    assert!(p.matches_constraints(&ts(2026, 1, 30, 10, 0, 0)));
    assert!(!p.matches_constraints(&ts(2026, 1, 23, 10, 0, 0)));
    // February 2026 (28 days) ends on Saturday; its last Friday is the 27th.
    assert!(p.matches_constraints(&ts(2026, 2, 27, 10, 0, 0)));
    assert!(!p.matches_constraints(&ts(2026, 2, 20, 10, 0, 0)));
    // February 2024 (29 days, leap year) ends on Thursday; its last Friday
    // is the 23rd.
    assert!(p.matches_constraints(&ts(2024, 2, 23, 10, 0, 0)));
    // April 2026 (30 days); its last Friday is the 24th.
    assert!(p.matches_constraints(&ts(2026, 4, 24, 10, 0, 0)));
}
