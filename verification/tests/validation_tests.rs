use tsadaash::{
    validate_occurrence_settings, DayConstraint, OccurrenceTimingSettings, Periodicity,
    PeriodicityConstraints, RepTimingSettings, RepetitionUnit, SpecialPattern, TimeOfDay,
    Timestamp, UniqueDate, ValidationError, Weekday,
};
use tsadaash::validation::{validate_day_constraint, validate_timeframe};

fn tod(h: u32, m: u32, s: u32) -> TimeOfDay {
    TimeOfDay::from_hms(h, m, s).unwrap()
}

fn ts(y: i32, mo: u8, d: u8, h: u32, mi: u32, s: u32) -> Timestamp {
    Timestamp::from_ymd_hms(y, mo, d, h, mi, s).unwrap()
}

fn base(rep_unit: RepetitionUnit, rep_per_unit: Option<u8>) -> Periodicity {
    Periodicity {
        rep_unit,
        rep_per_unit,
        occurrence_settings: None,
        constraints: PeriodicityConstraints::new(),
        timeframe: None,
        week_start: Weekday::Mon,
        special_pattern: None,
        reference_date: None,
    }
}

#[test]
fn test_validate_repetition_none_requires_none_count() {
    let mut periodicity = base(RepetitionUnit::Never, Some(1));
    periodicity.special_pattern = Some(SpecialPattern::Unique(UniqueDate {
        date: ts(2026, 1, 1, 0, 0, 0),
    }));

    assert!(periodicity.validate().is_err());
}

#[test]
fn test_validate_repetition_non_none_requires_count() {
    let periodicity = base(RepetitionUnit::Day, None);
    assert!(periodicity.validate().is_err());
}

#[test]
fn test_validate_day_constraint_empty_weekdays() {
    let constraint = DayConstraint::SpecificDaysWeek(vec![]);
    assert!(validate_day_constraint(&constraint).is_err());
}

#[test]
fn test_validate_day_constraint_duplicate_weekdays() {
    let constraint = DayConstraint::SpecificDaysWeek(vec![Weekday::Mon, Weekday::Mon]);
    assert!(validate_day_constraint(&constraint).is_err());
}

#[test]
fn test_validate_timeframe_start_after_end() {
    let now = ts(2026, 2, 2, 12, 0, 0);
    let past = ts(2026, 2, 1, 12, 0, 0);
    let timeframe = Some((now, past));

    assert!(validate_timeframe(&timeframe).is_err());
}

#[test]
fn test_validate_occurrence_settings_none() {
    assert!(validate_occurrence_settings(&None, Some(3)).is_ok());
}

#[test]
fn test_validate_occurrence_settings_valid() {
    let settings = OccurrenceTimingSettings {
        duration: Some(30),
        not_before: Some(tod(8, 0, 0)),
        best_before: Some(tod(10, 0, 0)),
        rep_timing_settings: None,
    };

    assert!(validate_occurrence_settings(&Some(settings), Some(3)).is_ok());
}

#[test]
fn test_validate_occurrence_settings_zero_duration() {
    let settings = OccurrenceTimingSettings {
        duration: Some(0),
        not_before: None,
        best_before: None,
        rep_timing_settings: None,
    };

    let result = validate_occurrence_settings(&Some(settings), Some(3));
    assert!(result.is_err());
    match result.unwrap_err() {
        ValidationError::InvalidValue { field, value, .. } => {
            assert_eq!(field, "duration");
            assert_eq!(value, "0");
        }
        _ => panic!("Expected InvalidValue error"),
    }
}

#[test]
fn test_validate_occurrence_settings_duration_too_large() {
    let settings = OccurrenceTimingSettings {
        duration: Some(1441),
        not_before: None,
        best_before: None,
        rep_timing_settings: None,
    };

    let result = validate_occurrence_settings(&Some(settings), Some(3));
    assert!(result.is_err());
    match result.unwrap_err() {
        ValidationError::OutOfRange { field, value, max, .. } => {
            assert_eq!(field, "duration");
            assert_eq!(value, "1441");
            assert_eq!(max, "1440");
        }
        _ => panic!("Expected OutOfRange error"),
    }
}

#[test]
fn test_validate_occurrence_settings_not_before_after_best_before() {
    let settings = OccurrenceTimingSettings {
        duration: Some(30),
        not_before: Some(tod(10, 0, 0)),
        best_before: Some(tod(8, 0, 0)),
        rep_timing_settings: None,
    };

    let result = validate_occurrence_settings(&Some(settings), Some(3));
    assert!(result.is_err());
    match result.unwrap_err() {
        ValidationError::InvalidValue { field, reason, .. } => {
            assert_eq!(field, "not_before/best_before");
            assert!(reason.contains("not_before must be earlier"));
        }
        _ => panic!("Expected InvalidValue error"),
    }
}

#[test]
fn test_validate_occurrence_settings_not_before_equals_best_before() {
    let time = tod(9, 0, 0);
    let settings = OccurrenceTimingSettings {
        duration: Some(30),
        not_before: Some(time),
        best_before: Some(time),
        rep_timing_settings: None,
    };

    let result = validate_occurrence_settings(&Some(settings), Some(3));
    assert!(result.is_err());
}

#[test]
fn test_validate_rep_timing_settings_empty() {
    let settings = OccurrenceTimingSettings {
        duration: Some(30),
        not_before: None,
        best_before: None,
        rep_timing_settings: Some(vec![]),
    };

    let result = validate_occurrence_settings(&Some(settings), Some(3));
    assert!(result.is_err());
    match result.unwrap_err() {
        ValidationError::EmptyCollection { field, .. } => {
            assert_eq!(field, "rep_timing_settings");
        }
        _ => panic!("Expected EmptyCollection error"),
    }
}

#[test]
fn test_validate_rep_timing_settings_duplicate_index() {
    let settings = OccurrenceTimingSettings {
        duration: Some(30),
        not_before: None,
        best_before: None,
        rep_timing_settings: Some(vec![
            RepTimingSettings {
                rep_index: 0,
                not_before: Some(tod(8, 0, 0)),
                best_before: None,
            },
            RepTimingSettings {
                rep_index: 0,
                not_before: Some(tod(12, 0, 0)),
                best_before: None,
            },
        ]),
    };

    let result = validate_occurrence_settings(&Some(settings), Some(3));
    assert!(result.is_err());
    match result.unwrap_err() {
        ValidationError::DuplicateValues { field, .. } => {
            assert_eq!(field, "rep_timing_settings.rep_index");
        }
        _ => panic!("Expected DuplicateValues error"),
    }
}

#[test]
fn test_validate_rep_timing_settings_index_out_of_range() {
    let settings = OccurrenceTimingSettings {
        duration: Some(30),
        not_before: None,
        best_before: None,
        rep_timing_settings: Some(vec![RepTimingSettings {
            rep_index: 3,
            not_before: Some(tod(8, 0, 0)),
            best_before: None,
        }]),
    };

    let result = validate_occurrence_settings(&Some(settings), Some(3));
    assert!(result.is_err());
    match result.unwrap_err() {
        ValidationError::OutOfRange { field, value, max, .. } => {
            assert_eq!(field, "rep_timing_settings.rep_index");
            assert_eq!(value, "3");
            assert_eq!(max, "2");
        }
        _ => panic!("Expected OutOfRange error"),
    }
}

#[test]
fn test_validate_rep_timing_settings_valid() {
    let settings = OccurrenceTimingSettings {
        duration: Some(30),
        not_before: None,
        best_before: None,
        rep_timing_settings: Some(vec![
            RepTimingSettings {
                rep_index: 0,
                not_before: Some(tod(8, 0, 0)),
                best_before: Some(tod(10, 0, 0)),
            },
            RepTimingSettings {
                rep_index: 1,
                not_before: Some(tod(12, 0, 0)),
                best_before: Some(tod(14, 0, 0)),
            },
            RepTimingSettings {
                rep_index: 2,
                not_before: Some(tod(18, 0, 0)),
                best_before: Some(tod(20, 0, 0)),
            },
        ]),
    };

    assert!(validate_occurrence_settings(&Some(settings), Some(3)).is_ok());
}

#[test]
fn test_validate_rep_timing_settings_time_order_invalid() {
    let settings = OccurrenceTimingSettings {
        duration: Some(30),
        not_before: None,
        best_before: None,
        rep_timing_settings: Some(vec![RepTimingSettings {
            rep_index: 0,
            not_before: Some(tod(10, 0, 0)),
            best_before: Some(tod(8, 0, 0)),
        }]),
    };

    let result = validate_occurrence_settings(&Some(settings), Some(3));
    assert!(result.is_err());
    match result.unwrap_err() {
        ValidationError::InvalidValue { field, reason, .. } => {
            assert!(field.contains("rep_timing_settings"));
            assert!(reason.contains("not_before must be earlier"));
        }
        _ => panic!("Expected InvalidValue error"),
    }
}

#[test]
fn test_validate_rep_timing_settings_no_rep_per_unit() {
    let settings = OccurrenceTimingSettings {
        duration: Some(30),
        not_before: None,
        best_before: None,
        rep_timing_settings: Some(vec![RepTimingSettings {
            rep_index: 10,
            not_before: Some(tod(8, 0, 0)),
            best_before: Some(tod(10, 0, 0)),
        }]),
    };

    assert!(validate_occurrence_settings(&Some(settings), None).is_ok());
}

#[test]
fn test_incompatible_every_n_days_with_week_unit() {
    let mut p = base(RepetitionUnit::Week, Some(1));
    p.constraints.day_constraint = Some(DayConstraint::EveryNDays(3));
    let result = p.validate();
    match result.unwrap_err() {
        ValidationError::IncompatibleConstraint { rep_unit, constraint_type, .. } => {
            assert_eq!(rep_unit, RepetitionUnit::Week);
            assert_eq!(constraint_type, "EveryNDays");
        }
        _ => panic!("Expected IncompatibleConstraint error"),
    }
}

#[test]
fn test_conflicting_special_pattern_and_constraints() {
    let mut p = base(RepetitionUnit::Never, None);
    p.special_pattern = Some(SpecialPattern::Unique(UniqueDate {
        date: ts(2026, 4, 1, 8, 0, 0),
    }));
    p.constraints.day_constraint = Some(DayConstraint::EveryDay);
    let result = p.validate();
    match result.unwrap_err() {
        ValidationError::ConflictingConstraints { constraint1, .. } => {
            assert_eq!(constraint1, "special_pattern");
        }
        _ => panic!("Expected ConflictingConstraints error"),
    }
}

#[test]
fn test_missing_special_pattern_with_never_unit() {
    let p = base(RepetitionUnit::Never, None);
    let result = p.validate();
    match result.unwrap_err() {
        ValidationError::MissingRequired { field, .. } => {
            assert_eq!(field, "special_pattern");
        }
        _ => panic!("Expected MissingRequired error"),
    }
}
