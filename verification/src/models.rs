//! The records that rules, logs and schedules are stored as.
use vstd::prelude::*;

verus! {

/// A value of a module's configuration, as the rule stores it.
#[derive(Debug, Clone)]
pub enum ConfigValue {
    Null,
    Bool(bool),
    /// A JSON number, held as the bits of the `f64` that it reads as
    /// (`serde_json::Number::as_f64`), where it reads as one.
    Number(Option<u64>),
    /// A JSON string, with the bits of the `f64` that its trimmed text
    /// parses to, where it parses as one.
    Text { text: String, number: Option<u64> },
    Array,
    Object,
}

/// A module's configuration: the entries of a JSON object, so no key
/// occurs twice (`keys_distinct`).
pub type ActionConfig = Vec<(String, ConfigValue)>;

/// Whether no key occurs twice among configuration entries.
pub open spec fn keys_distinct(config: Seq<(String, ConfigValue)>) -> bool {
    forall|i: int, j: int|
        #![trigger config[i], config[j]]
        0 <= i < j < config.len() ==> config[i].0@ != config[j].0@
}

/// Whether no day occurs twice among schedule entries.
pub open spec fn days_distinct(days: Seq<(DayKey, ScheduleConfig)>) -> bool {
    forall|i: int, j: int|
        #![trigger days[i], days[j]]
        0 <= i < j < days.len() ==> days[i].0 != days[j].0
}

#[derive(Debug, Clone)]
pub struct AutomationRule {
    pub id: String,
    pub active: bool,
    pub name: String,
    pub topic: String,
    pub match_type: String,
    pub match_value: String,
    pub action_type: String,
    pub action_value: Option<String>,
    pub module_id: Option<String>,
    pub action_config: Option<ActionConfig>,
    pub arguments: Option<String>,
    pub working_directory: Option<String>,
    pub created_at: String,
    pub updated_at: String,
    pub last_run: Option<String>,
    pub status: Option<String>,
}

#[derive(Debug, Clone)]
pub struct AutomationInput {
    pub id: String,
    pub active: bool,
    pub name: String,
    pub topic: String,
    pub match_type: String,
    pub match_value: String,
    pub action_type: String,
    pub action_value: Option<String>,
    pub module_id: Option<String>,
    pub action_config: Option<ActionConfig>,
    pub arguments: Option<String>,
    pub working_directory: Option<String>,
    pub last_run: Option<String>,
    pub status: Option<String>,
}

#[derive(Debug, Clone)]
pub struct LogsAutomation {
    pub id: String,
    pub rule_id: String,
    pub rule_name: String,
    pub topic: Option<String>,
    pub title: Option<String>,
    pub message: Option<String>,
    pub action_type: String,
    pub action_value: Option<String>,
    pub module_id: Option<String>,
    pub status: String,
    pub error: Option<String>,
    pub created_at: String,
}

#[derive(Debug, Clone)]
pub struct LogsInput {
    pub page: Option<u32>,
    pub page_size: Option<u32>,
    pub rule_id: Option<String>,
}

#[derive(Debug, Clone)]
pub struct LogsList {
    pub items: Vec<LogsAutomation>,
    pub page: u32,
    pub page_size: u32,
    pub total: u32,
    pub total_pages: u32,
}

/// The days of the week, Monday first.
#[derive(Debug, Clone, Copy, PartialEq, Eq, Structural, Hash)]
pub enum DayKey {
    Monday,
    Tuesday,
    Wednesday,
    Thursday,
    Friday,
    Saturday,
    Sunday,
}

/// The position of a day in the week, Monday being 0.
pub open spec fn day_index(day: DayKey) -> nat {
    match day {
        DayKey::Monday => 0,
        DayKey::Tuesday => 1,
        DayKey::Wednesday => 2,
        DayKey::Thursday => 3,
        DayKey::Friday => 4,
        DayKey::Saturday => 5,
        DayKey::Sunday => 6,
    }
}

/// The lower case English name of a day.
pub open spec fn day_name(day: DayKey) -> Seq<char> {
    match day {
        DayKey::Monday => "monday"@,
        DayKey::Tuesday => "tuesday"@,
        DayKey::Wednesday => "wednesday"@,
        DayKey::Thursday => "thursday"@,
        DayKey::Friday => "friday"@,
        DayKey::Saturday => "saturday"@,
        DayKey::Sunday => "sunday"@,
    }
}

/// The day at a position of the week, Monday being 0.
pub open spec fn day_at(i: int) -> DayKey {
    if i == 0 {
        DayKey::Monday
    } else if i == 1 {
        DayKey::Tuesday
    } else if i == 2 {
        DayKey::Wednesday
    } else if i == 3 {
        DayKey::Thursday
    } else if i == 4 {
        DayKey::Friday
    } else if i == 5 {
        DayKey::Saturday
    } else {
        DayKey::Sunday
    }
}

impl DayKey {
    /// The lower case name of the day.
    pub fn as_str(self) -> (r: &'static str)
        ensures
            r@ == day_name(self),
    {
        match self {
            DayKey::Monday => "monday",
            DayKey::Tuesday => "tuesday",
            DayKey::Wednesday => "wednesday",
            DayKey::Thursday => "thursday",
            DayKey::Friday => "friday",
            DayKey::Saturday => "saturday",
            DayKey::Sunday => "sunday",
        }
    }

    /// All days, Monday first.
    pub fn all() -> (r: Vec<DayKey>)
        ensures
            r@.len() == 7,
            forall|i: int| 0 <= i < 7 ==> #[trigger] r@[i] == day_at(i),
    {
        vec![
            DayKey::Monday,
            DayKey::Tuesday,
            DayKey::Wednesday,
            DayKey::Thursday,
            DayKey::Friday,
            DayKey::Saturday,
            DayKey::Sunday,
        ]
    }
}

#[derive(Debug, Clone)]
pub struct ScheduleConfig {
    pub enabled: bool,
    pub start_time: String,
    pub end_time: String,
}

/// The notification schedule; `days` has one entry per day that is set,
/// no day twice (`days_distinct`).
#[derive(Debug, Clone)]
pub struct Schedule {
    pub schedule_enabled: bool,
    pub days: Vec<(DayKey, ScheduleConfig)>,
}

/// A schedule as the user submits it: a map from days, so no day occurs
/// twice (`days_distinct`); it may lack some days.
#[derive(Debug, Clone)]
pub struct ScheduleInput {
    pub schedule_enabled: bool,
    pub days: Vec<(DayKey, ScheduleConfig)>,
}

} // verus!
