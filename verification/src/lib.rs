//! A scheduling core in two parts: a periodicity engine that decides, for any
//! date, whether it satisfies a recurrence specification, and a schedule
//! expansion and matching engine that turns weekly availability rules into a
//! conflict-resolved timeline of time blocks and decides whether a task fits a
//! block.

pub mod builder;
pub mod cal;
pub mod config;
pub mod continents;
pub mod expansion;
pub mod ids;
pub mod location;
pub mod matcher;
pub mod matching;
pub mod periodicity;
pub mod schedule;
pub mod text;
pub mod timezone;
pub mod validation;

pub use cal::{Date, Month, TimeOfDay, Timestamp, Weekday};
pub use config::Config;
pub use continents::Continents;
pub use ids::{RecurringRuleId, ScheduleTemplateId, TaskId, UserId};
pub use location::{GeoCoordinates, GeoCoordinatesError, Location, LocationError};
pub use timezone::{Timezone, TimezoneError};
pub use periodicity::{
    CustomDates, DayConstraint, MonthConstraint, MonthWeekPosition, NthWeekdayOfMonth,
    OccurrenceTimingSettings, Periodicity, PeriodicityConstraints, RepTimingSettings,
    RepetitionUnit, SpecialPattern, UniqueDate, WeekConstraint, YearConstraint,
};
pub use builder::PeriodicityBuilder;
pub use validation::{
    validate_occurrence_settings, validate_periodicity, ValidationError, ValidationErrorKind,
};
pub use schedule::{
    busy_flex_max_device, busy_flex_max_eyes, busy_flex_max_hands, busy_flex_max_minutes,
    AvailabilityKind, AvailabilityLevel, CapabilitySet, DeviceAccess, LocationConstraint, Mobility,
    RecurringRule, ScheduleTemplate, TimeBlock, UnavailableReason,
};
pub use expansion::expand_template;
pub use matching::{
    can_schedule_task_in_block, find_candidate_slots, is_micro_task, SchedulableTask,
    TaskRequirements,
};
