//! Trying a rule out by hand: the message it is tried with and the outcome.
use vstd::prelude::*;

use crate::matcher::{match_rule, spec_match_rule, AutomationEvent, MatchContext};
use crate::models::AutomationRule;
use crate::text::{
    chars_of, lines_of, replace_all, replace_exec, same_chars, slice, string_of, text_lines, trim,
    trim_chars,
};

verus! {

/// A request to try a rule on a message.
#[derive(Debug, Clone)]
pub struct TestRuleInput {
    pub rule_id: String,
    pub message: String,
    pub title: Option<String>,
}

/// The message a rule is tried with: the trimmed input, unless it is the
/// rule's own (trimmed) pattern text, in which case the first non-blank
/// pattern line stands in, with `$value` set to `50`.
pub open spec fn spec_build_test(match_value: Seq<char>, input: Seq<char>) -> Seq<char> {
    let message = trim(input);
    if message != trim(match_value) {
        message
    } else {
        let lines = text_lines(match_value);
        let first = if lines.len() > 0 {
            lines[0]
        } else {
            message
        };
        replace_all(first, "$value"@, "50"@)
    }
}

/// `build_test`: the message that a rule is tried with.
pub fn build_test(rule: &AutomationRule, input_message: &str) -> (r: String)
    ensures
        r@ == spec_build_test(rule.match_value@, input_message@),
{
    let message = trim_chars(chars_of(input_message).as_slice());
    let pattern = chars_of(rule.match_value.as_str());
    let trimmed_pattern = trim_chars(pattern.as_slice());
    if !same_chars(message.as_slice(), trimmed_pattern.as_slice()) {
        return string_of(message.as_slice());
    }
    let lines = lines_of(pattern.as_slice());
    let first = if lines.len() > 0 {
        proof {
            assert(lines.deep_view()[0] == lines@[0]@);
        }
        slice(lines[0].as_slice(), 0, lines[0].len())
    } else {
        message
    };
    proof {
        if lines@.len() > 0 {
            assert(lines@[0]@.subrange(0, lines@[0]@.len() as int) == lines@[0]@);
        }
    }
    let token = chars_of("$value");
    let fifty = chars_of("50");
    string_of(replace_exec(first.as_slice(), token.as_slice(), fifty.as_slice()).as_slice())
}

/// What a test run is given when the test message matches the rule.
pub open spec fn test_failure() -> Seq<char> {
    "Test message did not match this rule"@
}

/// `test_rule`, up to running the action: the event built from the test
/// message (the rule's topic, the given title, the message of
/// `build_test`) and the match it yields, or the error that the test
/// message did not match.
pub fn test_plan(rule: &AutomationRule, input: &TestRuleInput) -> (r: Result<
    (AutomationEvent, MatchContext),
    String,
>)
    ensures
        match r {
            Ok((event, context)) => {
                &&& event.topic@ == rule.topic@
                &&& event.title == input.title
                &&& event.message@ == spec_build_test(rule.match_value@, input.message@)
                &&& spec_match_rule(
                    rule.topic@,
                    rule.match_type@,
                    rule.match_value@,
                    rule.topic@,
                    event.message@,
                ) == Some(context@)
            },
            Err(e) => {
                &&& e@ == test_failure()
                &&& spec_match_rule(
                    rule.topic@,
                    rule.match_type@,
                    rule.match_value@,
                    rule.topic@,
                    spec_build_test(rule.match_value@, input.message@),
                ) is None
            },
        },
{
    let message = build_test(rule, input.message.as_str());
    let event = AutomationEvent {
        topic: rule.topic.clone(),
        title: input.title.clone(),
        message,
    };
    match match_rule(rule, &event) {
        Some(context) => Ok((event, context)),
        None => Err(String::from_str("Test message did not match this rule")),
    }
}

} // verus!
