use tsadaash::config::{
    occurrence_max_notes_length, occurrence_rep_max_notes_length, schedule_busy_flex_max_minutes,
    task_default_duration_minutes, task_max_description_length, task_max_title_length,
};
use tsadaash::Config;

#[test]
fn test_config_loads_defaults() {
    let config = Config::new();

    assert_eq!(config.task_max_title_length, 200);
    assert_eq!(config.task_max_description_length, 2000);
    assert_eq!(config.task_default_duration_minutes, 30);
    assert_eq!(config.occurrence_max_notes_length, 1000);
    assert_eq!(config.occurrence_rep_max_notes_length, 500);
    assert_eq!(config.schedule_busy_flex_max_minutes, 15);
}

#[test]
fn test_accessor_functions() {
    assert!(task_max_title_length() > 0);
    assert!(task_max_description_length() > 0);
    assert!(task_default_duration_minutes() > 0);
    assert!(occurrence_max_notes_length() > 0);
    assert!(schedule_busy_flex_max_minutes() > 0);
}

#[test]
fn test_default_config_matches_new() {
    assert_eq!(Config::default(), Config::new());
    assert_eq!(occurrence_rep_max_notes_length(), 500);
}
