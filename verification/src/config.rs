//! Numeric configuration for the scheduling core: a plain value constructed
//! once by the caller and read during a call. The accessor functions return
//! the built-in defaults; a caller that overrides them (from the environment,
//! say) builds its own `Config` and passes it along.

use vstd::prelude::*;

verus! {

/// Default longest task title, in characters.
pub const DEFAULT_TASK_MAX_TITLE_LENGTH: usize = 200;

/// Default longest task description, in characters.
pub const DEFAULT_TASK_MAX_DESCRIPTION_LENGTH: usize = 2000;

/// Default task duration, in minutes.
pub const DEFAULT_TASK_DURATION_MINUTES: u16 = 30;

/// Default longest occurrence notes, in characters.
pub const DEFAULT_OCCURRENCE_MAX_NOTES_LENGTH: usize = 1000;

/// Default longest per-repetition notes, in characters.
pub const DEFAULT_OCCURRENCE_REP_MAX_NOTES_LENGTH: usize = 500;

/// Default longest task, in minutes, that a busy-but-flexible block takes.
pub const DEFAULT_BUSY_FLEX_MAX_MINUTES: u32 = 15;

/// Default highest hands level a busy-but-flexible block allows (1 is
/// limited use).
pub const DEFAULT_BUSY_FLEX_MAX_HANDS_LEVEL: u8 = 1;

/// Default highest eyes level a busy-but-flexible block allows (1 is
/// limited use).
pub const DEFAULT_BUSY_FLEX_MAX_EYES_LEVEL: u8 = 1;

/// Default highest device level a busy-but-flexible block allows (1 is a
/// phone).
pub const DEFAULT_BUSY_FLEX_MAX_DEVICE_LEVEL: u8 = 1;

/// Application configuration: task limits and busy-but-flexible thresholds.
#[derive(Debug, Clone, PartialEq, Eq, Structural)]
pub struct Config {
    pub task_max_title_length: usize,
    pub task_max_description_length: usize,
    pub task_default_duration_minutes: u16,
    pub occurrence_max_notes_length: usize,
    pub occurrence_rep_max_notes_length: usize,
    pub schedule_busy_flex_max_minutes: u32,
    pub schedule_busy_flex_max_hands_level: u8,
    pub schedule_busy_flex_max_eyes_level: u8,
    pub schedule_busy_flex_max_device_level: u8,
}

impl Config {
    /// Whether every field holds its default.
    pub open spec fn is_default(self) -> bool {
        &&& self.task_max_title_length == DEFAULT_TASK_MAX_TITLE_LENGTH
        &&& self.task_max_description_length == DEFAULT_TASK_MAX_DESCRIPTION_LENGTH
        &&& self.task_default_duration_minutes == DEFAULT_TASK_DURATION_MINUTES
        &&& self.occurrence_max_notes_length == DEFAULT_OCCURRENCE_MAX_NOTES_LENGTH
        &&& self.occurrence_rep_max_notes_length == DEFAULT_OCCURRENCE_REP_MAX_NOTES_LENGTH
        &&& self.schedule_busy_flex_max_minutes == DEFAULT_BUSY_FLEX_MAX_MINUTES
        &&& self.schedule_busy_flex_max_hands_level == DEFAULT_BUSY_FLEX_MAX_HANDS_LEVEL
        &&& self.schedule_busy_flex_max_eyes_level == DEFAULT_BUSY_FLEX_MAX_EYES_LEVEL
        &&& self.schedule_busy_flex_max_device_level == DEFAULT_BUSY_FLEX_MAX_DEVICE_LEVEL
    }

    /// The configuration with every field at its default.
    pub fn new() -> (c: Config)
        ensures
            c.is_default(),
    {
        Config {
            task_max_title_length: DEFAULT_TASK_MAX_TITLE_LENGTH,
            task_max_description_length: DEFAULT_TASK_MAX_DESCRIPTION_LENGTH,
            task_default_duration_minutes: DEFAULT_TASK_DURATION_MINUTES,
            occurrence_max_notes_length: DEFAULT_OCCURRENCE_MAX_NOTES_LENGTH,
            occurrence_rep_max_notes_length: DEFAULT_OCCURRENCE_REP_MAX_NOTES_LENGTH,
            schedule_busy_flex_max_minutes: DEFAULT_BUSY_FLEX_MAX_MINUTES,
            schedule_busy_flex_max_hands_level: DEFAULT_BUSY_FLEX_MAX_HANDS_LEVEL,
            schedule_busy_flex_max_eyes_level: DEFAULT_BUSY_FLEX_MAX_EYES_LEVEL,
            schedule_busy_flex_max_device_level: DEFAULT_BUSY_FLEX_MAX_DEVICE_LEVEL,
        }
    }
}

impl Default for Config {
    /// The configuration with every field at its default.
    fn default() -> (c: Config)
        ensures
            c.is_default(),
    {
        Config::new()
    }
}

/// Default longest task title, in characters.
pub fn task_max_title_length() -> (n: usize)
    ensures
        n == DEFAULT_TASK_MAX_TITLE_LENGTH,
{
    DEFAULT_TASK_MAX_TITLE_LENGTH
}

/// Default longest task description, in characters.
pub fn task_max_description_length() -> (n: usize)
    ensures
        n == DEFAULT_TASK_MAX_DESCRIPTION_LENGTH,
{
    DEFAULT_TASK_MAX_DESCRIPTION_LENGTH
}

/// Default task duration, in minutes.
pub fn task_default_duration_minutes() -> (n: u16)
    ensures
        n == DEFAULT_TASK_DURATION_MINUTES,
{
    DEFAULT_TASK_DURATION_MINUTES
}

/// Default longest occurrence notes, in characters.
pub fn occurrence_max_notes_length() -> (n: usize)
    ensures
        n == DEFAULT_OCCURRENCE_MAX_NOTES_LENGTH,
{
    DEFAULT_OCCURRENCE_MAX_NOTES_LENGTH
}

/// Default longest per-repetition notes, in characters.
pub fn occurrence_rep_max_notes_length() -> (n: usize)
    ensures
        n == DEFAULT_OCCURRENCE_REP_MAX_NOTES_LENGTH,
{
    DEFAULT_OCCURRENCE_REP_MAX_NOTES_LENGTH
}

/// Default longest task, in minutes, that a busy-but-flexible block takes.
pub fn schedule_busy_flex_max_minutes() -> (n: u32)
    ensures
        n == DEFAULT_BUSY_FLEX_MAX_MINUTES,
{
    DEFAULT_BUSY_FLEX_MAX_MINUTES
}

/// Default highest hands level a busy-but-flexible block allows.
pub fn schedule_busy_flex_max_hands_level() -> (n: u8)
    ensures
        n == DEFAULT_BUSY_FLEX_MAX_HANDS_LEVEL,
{
    DEFAULT_BUSY_FLEX_MAX_HANDS_LEVEL
}

/// Default highest eyes level a busy-but-flexible block allows.
pub fn schedule_busy_flex_max_eyes_level() -> (n: u8)
    ensures
        n == DEFAULT_BUSY_FLEX_MAX_EYES_LEVEL,
{
    DEFAULT_BUSY_FLEX_MAX_EYES_LEVEL
}

/// Default highest device level a busy-but-flexible block allows.
pub fn schedule_busy_flex_max_device_level() -> (n: u8)
    ensures
        n == DEFAULT_BUSY_FLEX_MAX_DEVICE_LEVEL,
{
    DEFAULT_BUSY_FLEX_MAX_DEVICE_LEVEL
}

} // verus!
