use ntfy_app::commands::{build_test, test_plan, TestRuleInput};
use ntfy_app::engine::{execution_status, matching_rules, notification_event};
use ntfy_app::background::Payload;
use ntfy_app::matcher::{match_rule, AutomationEvent, MatchContext};
use ntfy_app::models::AutomationRule;
use ntfy_app::tokens::replace_tokens;

fn rule(topic: &str, match_type: &str, match_value: &str) -> AutomationRule {
    AutomationRule {
        id: "r1".to_string(),
        active: true,
        name: "Rule".to_string(),
        topic: topic.to_string(),
        match_type: match_type.to_string(),
        match_value: match_value.to_string(),
        action_type: "openUrl".to_string(),
        action_value: Some("https://example.com".to_string()),
        module_id: None,
        action_config: None,
        arguments: None,
        working_directory: None,
        created_at: "1".to_string(),
        updated_at: "1".to_string(),
        last_run: None,
        status: None,
    }
}

fn event(topic: &str, message: &str) -> AutomationEvent {
    AutomationEvent { topic: topic.to_string(), title: None, message: message.to_string() }
}

fn context(value: &str, line: &str, message: &str) -> MatchContext {
    MatchContext {
        value: value.to_string(),
        matched_line: line.to_string(),
        message: message.to_string(),
    }
}

fn parts(c: &MatchContext) -> (&str, &str, &str) {
    (c.value.as_str(), c.matched_line.as_str(), c.message.as_str())
}

#[test]
fn equals_ignores_case_and_margins() {
    let c = match_rule(&rule("alerts", "equals", "Server down"), &event(" ALERTS ", "server DOWN"))
        .unwrap();
    assert_eq!(parts(&c), ("server DOWN", "Server down", "server DOWN"));
}

#[test]
fn equals_template_captures_value() {
    let c = match_rule(&rule("cpu", "equals", "CPU at $value%"), &event("cpu", "cpu at 93%"))
        .unwrap();
    assert_eq!(parts(&c), ("93", "CPU at $value%", "cpu at 93%"));
}

#[test]
fn equals_template_without_value_does_not_match() {
    assert!(match_rule(&rule("cpu", "equals", "CPU at $value%"), &event("cpu", "cpu at %")).is_none());
}

#[test]
fn template_with_two_values_never_matches() {
    assert!(match_rule(&rule("t", "equals", "$value and $value"), &event("t", "a and b")).is_none());
}

#[test]
fn contains_takes_the_text_after() {
    let c = match_rule(&rule("logs", "contains", "error"), &event("logs", "disk ERROR on sda"))
        .unwrap();
    assert_eq!(parts(&c), ("on sda", "error", "disk ERROR on sda"));
}

#[test]
fn contains_at_the_end_takes_the_text_before() {
    let c = match_rule(&rule("logs", "contains", "error"), &event("logs", "fatal error")).unwrap();
    assert_eq!(c.value, "fatal");
}

#[test]
fn contains_template_finds_value_inside() {
    let c = match_rule(
        &rule("bank", "contains", "paid $value to"),
        &event("bank", "You paid 20 EUR to"),
    )
    .unwrap();
    assert_eq!(c.value, "20 EUR");
}

#[test]
fn starts_with_takes_the_rest() {
    let c = match_rule(&rule("b", "startsWith", "Backup"), &event("b", "backup finished ok"))
        .unwrap();
    assert_eq!(parts(&c), ("finished ok", "Backup", "backup finished ok"));
}

#[test]
fn starts_with_whole_message_gives_empty_value() {
    let c = match_rule(&rule("b", "startsWith", "Backup"), &event("b", "Backup")).unwrap();
    assert_eq!(c.value, "");
}

#[test]
fn single_lines_are_tried_after_the_whole_message() {
    let c = match_rule(
        &rule("door", "equals", "Door opened"),
        &event("door", "Alert\nDoor opened\nfront"),
    )
    .unwrap();
    assert_eq!(parts(&c), ("Door opened", "Door opened", "Door opened"));
}

#[test]
fn later_pattern_lines_are_tried() {
    let c = match_rule(&rule("t", "equals", "foo\n\n  bar  "), &event("t", "BAR")).unwrap();
    assert_eq!(parts(&c), ("BAR", "bar", "BAR"));
}

#[test]
fn other_topic_never_matches() {
    assert!(match_rule(&rule("alerts", "equals", "x"), &event("other", "x")).is_none());
}

#[test]
fn blank_message_never_matches() {
    assert!(match_rule(&rule("t", "contains", "x"), &event("t", "  \n ")).is_none());
}

#[test]
fn unknown_match_type_never_matches() {
    assert!(match_rule(&rule("t", "regex", "x"), &event("t", "x")).is_none());
}

#[test]
fn blank_pattern_never_matches() {
    assert!(match_rule(&rule("t", "equals", " \n "), &event("t", "x")).is_none());
}

#[test]
fn tokens_are_replaced_in_order() {
    let c = context("93", "CPU at $value%", "cpu at 93%");
    assert_eq!(
        replace_tokens("Vol $value from $message ($matchedLine)", &c),
        "Vol 93 from cpu at 93% (CPU at $value%)"
    );
}

#[test]
fn text_without_tokens_is_kept() {
    let c = context("1", "2", "3");
    assert_eq!(replace_tokens("plain $text", &c), "plain $text");
}

#[test]
fn build_test_uses_the_trimmed_input() {
    assert_eq!(build_test(&rule("t", "equals", "Server down"), "  hello  "), "hello");
}

#[test]
fn build_test_with_own_pattern_fills_value() {
    let r = rule("t", "equals", "\n  CPU at $value%\nother");
    assert_eq!(build_test(&r, "CPU at $value%\nother"), "CPU at 50%");
}

#[test]
fn test_plan_matches_own_pattern() {
    let r = rule("home", "equals", "Door opened");
    let input = TestRuleInput {
        rule_id: "r1".to_string(),
        message: "Door opened".to_string(),
        title: Some("T".to_string()),
    };
    let (e, c) = test_plan(&r, &input).unwrap();
    assert_eq!(e.topic, "home");
    assert_eq!(e.title, Some("T".to_string()));
    assert_eq!(parts(&c), ("Door opened", "Door opened", "Door opened"));
}

#[test]
fn test_plan_reports_a_mismatch() {
    let r = rule("home", "equals", "Door opened");
    let input = TestRuleInput { rule_id: "r1".to_string(), message: "nope".to_string(), title: None };
    assert_eq!(test_plan(&r, &input).unwrap_err(), "Test message did not match this rule");
}

#[test]
fn notification_event_trims_topic() {
    let p = Payload {
        id: None,
        time: None,
        topic: "  news ".to_string(),
        title: Some("T".to_string()),
        message: " hi ".to_string(),
    };
    let e = notification_event(p).unwrap();
    assert_eq!(e.topic, "news");
    assert_eq!(e.title, Some("T".to_string()));
    assert_eq!(e.message, " hi ");
}

#[test]
fn notification_event_drops_blank_topic_or_message() {
    let blank_topic =
        Payload { id: None, time: None, topic: " ".to_string(), title: None, message: "x".to_string() };
    let blank_message =
        Payload { id: None, time: None, topic: "t".to_string(), title: None, message: " ".to_string() };
    assert!(notification_event(blank_topic).is_none());
    assert!(notification_event(blank_message).is_none());
}

#[test]
fn matching_rules_keeps_order_and_positions() {
    let rules = vec![
        rule("t", "equals", "a"),
        rule("t", "equals", "b"),
        rule("t", "contains", "a"),
    ];
    let found = matching_rules(&rules, &event("t", "a"));
    let positions: Vec<usize> = found.iter().map(|(i, _)| *i).collect();
    assert_eq!(positions, vec![0, 2]);
    assert_eq!(found[1].1.value, "");
}

#[test]
fn execution_status_names_the_outcome() {
    assert_eq!(execution_status(&Ok(())), ("success".to_string(), None));
    assert_eq!(
        execution_status(&Err("boom".to_string())),
        ("failed".to_string(), Some("boom".to_string()))
    );
}

#[test]
fn topics_compare_the_same_either_way() {
    assert!(match_rule(&rule("News", "equals", "x"), &event("news ", "x")).is_some());
    assert!(match_rule(&rule("news ", "equals", "x"), &event("News", "x")).is_some());
}

#[test]
fn a_template_suffix_must_end_the_message() {
    assert!(match_rule(
        &rule("bank", "contains", "paid $value to"),
        &event("bank", "You paid 20 EUR to Bob"),
    )
    .is_none());
}

#[test]
fn template_captures_the_rest() {
    let c = match_rule(&rule("cpu", "equals", "CPU at $value"), &event("cpu", " cpu AT   93 % ")).unwrap();
    assert_eq!(parts(&c), ("93 %", "CPU at $value", "cpu AT   93 %"));
}
