use ntfy_app::logs::{log_cutoff, log_page, log_rule_filter, logs_list, total_pages, DAY_MS};
use ntfy_app::models::{
    AutomationInput, AutomationRule, DayKey, LogsInput, Schedule, ScheduleConfig, ScheduleInput,
};
use ntfy_app::rules::{deletion_result, found_rule, initial_status, merged_run_state, toggled};
use ntfy_app::schedule::{
    day_of_week, default_schedule_config, parse_day_key, schedule_from_rows, should_show,
    time_to_minutes, validate_schedule,
};

fn config(enabled: bool, start: &str, end: &str) -> ScheduleConfig {
    ScheduleConfig { enabled, start_time: start.to_string(), end_time: end.to_string() }
}

fn all_days() -> Vec<DayKey> {
    vec![
        DayKey::Monday,
        DayKey::Tuesday,
        DayKey::Wednesday,
        DayKey::Thursday,
        DayKey::Friday,
        DayKey::Saturday,
        DayKey::Sunday,
    ]
}

fn stored_rule() -> AutomationRule {
    AutomationRule {
        id: "r1".to_string(),
        active: true,
        name: "Rule".to_string(),
        topic: "t".to_string(),
        match_type: "equals".to_string(),
        match_value: "x".to_string(),
        action_type: "openUrl".to_string(),
        action_value: Some("https://example.com".to_string()),
        module_id: None,
        action_config: None,
        arguments: Some("-a".to_string()),
        working_directory: None,
        created_at: "1".to_string(),
        updated_at: "2".to_string(),
        last_run: Some("100".to_string()),
        status: Some("success".to_string()),
    }
}

#[test]
fn time_to_minutes_reads_hours_and_minutes() {
    assert_eq!(time_to_minutes("09:00"), Some(540));
    assert_eq!(time_to_minutes("17:30"), Some(1050));
    assert_eq!(time_to_minutes("0:5"), Some(5));
    assert_eq!(time_to_minutes("+1:+1"), Some(61));
    assert_eq!(time_to_minutes("23:59"), Some(1439));
}

#[test]
fn time_to_minutes_refuses_bad_times() {
    assert_eq!(time_to_minutes("24:00"), None);
    assert_eq!(time_to_minutes("12:60"), None);
    assert_eq!(time_to_minutes("12"), None);
    assert_eq!(time_to_minutes("1:2:3"), None);
    assert_eq!(time_to_minutes(" 9:00"), None);
    assert_eq!(time_to_minutes("a:00"), None);
    assert_eq!(time_to_minutes(":00"), None);
    assert_eq!(time_to_minutes("99999:00"), None);
}

#[test]
fn default_config_is_nine_to_five_on_weekdays() {
    let monday = default_schedule_config(DayKey::Monday);
    assert!(monday.enabled);
    assert_eq!(monday.start_time, "09:00");
    assert_eq!(monday.end_time, "17:00");
    assert!(!default_schedule_config(DayKey::Saturday).enabled);
    assert!(!default_schedule_config(DayKey::Sunday).enabled);
}

#[test]
fn default_schedule_is_valid() {
    let days = all_days().into_iter().map(|d| (d, default_schedule_config(d))).collect();
    assert_eq!(validate_schedule(&ScheduleInput { schedule_enabled: true, days }), Ok(()));
}

#[test]
fn schedule_missing_a_day_is_refused() {
    let days = all_days()
        .into_iter()
        .filter(|d| *d != DayKey::Wednesday)
        .map(|d| (d, default_schedule_config(d)))
        .collect();
    assert_eq!(
        validate_schedule(&ScheduleInput { schedule_enabled: true, days }),
        Err("Schedule is missing wednesday".to_string())
    );
}

#[test]
fn schedule_with_bad_times_is_refused() {
    let mut days: Vec<(DayKey, ScheduleConfig)> =
        all_days().into_iter().map(|d| (d, default_schedule_config(d))).collect();
    days[1].1 = config(true, "9h", "17:00");
    assert_eq!(
        validate_schedule(&ScheduleInput { schedule_enabled: true, days: days.clone() }),
        Err("tuesday start time is invalid".to_string())
    );
    days[1].1 = config(true, "09:00", "25:00");
    assert_eq!(
        validate_schedule(&ScheduleInput { schedule_enabled: true, days: days.clone() }),
        Err("tuesday end time is invalid".to_string())
    );
    days[1].1 = config(true, "17:00", "09:00");
    assert_eq!(
        validate_schedule(&ScheduleInput { schedule_enabled: true, days: days.clone() }),
        Err("tuesday end time must be after start time".to_string())
    );
    days[1].1 = config(false, "17:00", "09:00");
    assert_eq!(validate_schedule(&ScheduleInput { schedule_enabled: true, days }), Ok(()));
}

#[test]
fn day_keys_round_trip() {
    for d in all_days() {
        assert_eq!(parse_day_key(d.as_str()), Ok(d));
    }
    assert_eq!(parse_day_key("Monday"), Err("Invalid day key: Monday".to_string()));
}

#[test]
fn day_of_week_counts_from_monday() {
    assert_eq!(day_of_week(0), DayKey::Monday);
    assert_eq!(day_of_week(4), DayKey::Friday);
    assert_eq!(day_of_week(6), DayKey::Sunday);
}

#[test]
fn schedule_rows_override_defaults() {
    let rows = vec![
        (DayKey::Sunday, config(true, "10:00", "12:00")),
        (DayKey::Sunday, config(true, "11:00", "13:00")),
    ];
    let s = schedule_from_rows(Some(1), &rows);
    assert!(s.schedule_enabled);
    assert_eq!(s.days.len(), 7);
    assert_eq!(s.days[6].0, DayKey::Sunday);
    assert_eq!(s.days[6].1.start_time, "11:00");
    assert_eq!(s.days[0].1.start_time, "09:00");
    assert!(!schedule_from_rows(None, &rows).schedule_enabled);
    assert!(!schedule_from_rows(Some(0), &rows).schedule_enabled);
}

#[test]
fn should_show_follows_the_day() {
    let days: Vec<(DayKey, ScheduleConfig)> =
        all_days().into_iter().map(|d| (d, default_schedule_config(d))).collect();
    let on = Schedule { schedule_enabled: true, days: days.clone() };
    assert_eq!(should_show(&on, DayKey::Monday, 9, 0), Ok(true));
    assert_eq!(should_show(&on, DayKey::Monday, 16, 59), Ok(true));
    assert_eq!(should_show(&on, DayKey::Monday, 17, 0), Ok(false));
    assert_eq!(should_show(&on, DayKey::Monday, 8, 59), Ok(false));
    assert_eq!(should_show(&on, DayKey::Saturday, 12, 0), Ok(false));
    let off = Schedule { schedule_enabled: false, days };
    assert_eq!(should_show(&off, DayKey::Saturday, 3, 0), Ok(true));
}

#[test]
fn should_show_reports_bad_times_and_missing_days() {
    let bad = Schedule {
        schedule_enabled: true,
        days: vec![(DayKey::Monday, config(true, "x", "17:00")), (DayKey::Tuesday, config(true, "09:00", "y"))],
    };
    assert_eq!(should_show(&bad, DayKey::Monday, 10, 0), Err("Invalid start time for monday".to_string()));
    assert_eq!(should_show(&bad, DayKey::Tuesday, 10, 0), Err("Invalid end time for tuesday".to_string()));
    assert_eq!(should_show(&bad, DayKey::Friday, 10, 0), Ok(false));
}

#[test]
fn log_page_clamps_the_window() {
    let input = |page, size| LogsInput { page, page_size: size, rule_id: None };
    assert_eq!(log_page(&input(None, None)), (1, 50, 0));
    assert_eq!(log_page(&input(Some(0), Some(2))), (1, 5, 0));
    assert_eq!(log_page(&input(Some(3), Some(500))), (3, 100, 200));
    assert_eq!(log_page(&input(Some(2), Some(20))), (2, 20, 20));
}

#[test]
fn log_rule_filter_trims() {
    let f = |r: Option<&str>| log_rule_filter(&LogsInput { page: None, page_size: None, rule_id: r.map(String::from) });
    assert_eq!(f(Some("  r1 ")), Some("r1".to_string()));
    assert_eq!(f(Some("   ")), None);
    assert_eq!(f(None), None);
}

#[test]
fn total_pages_rounds_up() {
    assert_eq!(total_pages(0, 50), 1);
    assert_eq!(total_pages(1, 50), 1);
    assert_eq!(total_pages(50, 50), 1);
    assert_eq!(total_pages(51, 50), 2);
    assert_eq!(total_pages(101, 5), 21);
    assert_eq!(total_pages(u32::MAX, 1), u32::MAX);
}

#[test]
fn logs_list_carries_the_figures() {
    let l = logs_list(Vec::new(), 2, 10, 25);
    assert_eq!((l.page, l.page_size, l.total, l.total_pages), (2, 10, 25, 3));
}

#[test]
fn log_cutoff_saturates() {
    assert_eq!(log_cutoff(10 * DAY_MS, 3), 7 * DAY_MS);
    assert_eq!(log_cutoff(0, 1), -DAY_MS);
    assert_eq!(log_cutoff(i64::MIN + 5, 1), i64::MIN);
}

#[test]
fn new_rules_default_to_never() {
    assert_eq!(initial_status(&None), Some("never".to_string()));
    assert_eq!(initial_status(&Some("failed".to_string())), Some("failed".to_string()));
}

#[test]
fn updates_keep_the_stored_run_state() {
    let existing = stored_rule();
    let mut input = toggled(stored_rule());
    input.last_run = None;
    input.status = None;
    assert_eq!(
        merged_run_state(&input, &existing),
        (Some("100".to_string()), Some("success".to_string()))
    );
    input.status = Some("failed".to_string());
    assert_eq!(merged_run_state(&input, &existing).1, Some("failed".to_string()));
}

#[test]
fn toggling_flips_only_active() {
    let t: AutomationInput = toggled(stored_rule());
    assert!(!t.active);
    assert_eq!(t.id, "r1");
    assert_eq!(t.arguments, Some("-a".to_string()));
    assert_eq!(t.last_run, Some("100".to_string()));
    assert!(toggled(AutomationRule { active: false, ..stored_rule() }).active);
}

#[test]
fn missing_rules_are_reported() {
    assert_eq!(found_rule(None).unwrap_err(), "Rule not found");
    assert_eq!(found_rule(Some(stored_rule())).unwrap().id, "r1");
    assert_eq!(deletion_result(0), Err("Rule not found".to_string()));
    assert_eq!(deletion_result(1), Ok(()));
}

#[test]
fn toggling_twice_gives_the_rule_back() {
    let rule = stored_rule();
    let once = toggled(rule.clone());
    let (last_run, status) = merged_run_state(&once, &rule);
    let stored = AutomationRule {
        id: once.id.clone(),
        active: once.active,
        name: once.name.clone(),
        topic: once.topic.clone(),
        match_type: once.match_type.clone(),
        match_value: once.match_value.clone(),
        action_type: once.action_type.clone(),
        action_value: once.action_value.clone(),
        module_id: once.module_id.clone(),
        action_config: once.action_config.clone(),
        arguments: once.arguments.clone(),
        working_directory: once.working_directory.clone(),
        created_at: rule.created_at.clone(),
        updated_at: "3".to_string(),
        last_run,
        status,
    };
    assert!(!stored.active);
    let twice = toggled(stored);
    assert_eq!(twice.active, rule.active);
    assert_eq!(twice.name, rule.name);
    assert_eq!(twice.action_value, rule.action_value);
    assert_eq!(twice.last_run, rule.last_run);
    assert_eq!(twice.status, rule.status);
}

#[test]
fn stored_schedules_hold_each_day_once() {
    let rows = vec![
        (DayKey::Friday, config(false, "10:00", "12:00")),
        (DayKey::Friday, config(true, "08:00", "09:00")),
    ];
    let s = schedule_from_rows(Some(1), &rows);
    for a in 0..s.days.len() {
        for b in (a + 1)..s.days.len() {
            assert_ne!(s.days[a].0, s.days[b].0);
        }
    }
    assert_eq!(s.days[4].1.start_time, "08:00");
}

#[test]
fn saved_schedules_read_back() {
    let all = [
        DayKey::Monday,
        DayKey::Tuesday,
        DayKey::Wednesday,
        DayKey::Thursday,
        DayKey::Friday,
        DayKey::Saturday,
        DayKey::Sunday,
    ];
    let days: Vec<(DayKey, ScheduleConfig)> = all
        .iter()
        .enumerate()
        .map(|(i, d)| (*d, config(i % 2 == 0, &format!("0{}:00", i + 1), "18:30")))
        .collect();
    let input = ScheduleInput { schedule_enabled: true, days: days.clone() };
    assert_eq!(validate_schedule(&input), Ok(()));
    let mut rows = days.clone();
    rows.reverse();
    let s = schedule_from_rows(Some(1), &rows);
    assert!(s.schedule_enabled);
    for (i, d) in all.iter().enumerate() {
        assert_eq!(s.days[i].0, *d);
        assert_eq!(s.days[i].1.enabled, days[i].1.enabled);
        assert_eq!(s.days[i].1.start_time, days[i].1.start_time);
        assert_eq!(s.days[i].1.end_time, days[i].1.end_time);
    }
}
