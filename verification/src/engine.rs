//! What a notification sets off: the event it stands for, the rules that it
//! matches, and how each run is recorded.
use vstd::prelude::*;

use crate::background::Payload;
use crate::matcher::{match_rule, spec_match_rule, AutomationEvent, MatchContext};
use crate::models::AutomationRule;
use crate::text::{chars_of, string_of, trim, trim_chars};

verus! {

/// `handle_notification`, the event: the topic trimmed, the title and the
/// message as they came; none when the topic or the message is blank.
pub fn notification_event(notification: Payload) -> (r: Option<AutomationEvent>)
    ensures
        r is Some <==> (trim(notification.topic@).len() > 0 && trim(notification.message@).len()
            > 0),
        r matches Some(e) ==> e.topic@ == trim(notification.topic@) && e.title
            == notification.title && e.message == notification.message,
{
    let topic = trim_chars(chars_of(notification.topic.as_str()).as_slice());
    let message = trim_chars(chars_of(notification.message.as_str()).as_slice());
    if topic.len() == 0 || message.len() == 0 {
        return None;
    }
    Some(
        AutomationEvent {
            topic: string_of(topic.as_slice()),
            title: notification.title,
            message: notification.message,
        },
    )
}

/// The context that a rule yields for an event, if it matches.
pub open spec fn rule_match(rule: AutomationRule, event: AutomationEvent) -> Option<
    (Seq<char>, Seq<char>, Seq<char>),
> {
    spec_match_rule(rule.topic@, rule.match_type@, rule.match_value@, event.topic@, event.message@)
}

/// The rules among the first `n` that match the event, in order, each with
/// its position and its context.
pub open spec fn matches_upto(rules: Seq<AutomationRule>, event: AutomationEvent, n: int) -> Seq<
    (int, (Seq<char>, Seq<char>, Seq<char>)),
>
    decreases n,
{
    if n <= 0 {
        Seq::empty()
    } else {
        let prev = matches_upto(rules, event, n - 1);
        match rule_match(rules[n - 1], event) {
            Some(c) => prev.push((n - 1, c)),
            None => prev,
        }
    }
}

/// The view of the matches found.
pub open spec fn matches_view(found: Seq<(usize, MatchContext)>) -> Seq<
    (int, (Seq<char>, Seq<char>, Seq<char>)),
> {
    found.map_values(|p: (usize, MatchContext)| (p.0 as int, p.1@))
}

/// `handle_notification`, the rules to run: each rule that matches the
/// event, in the order given, with its position and its match context.
pub fn matching_rules(rules: &Vec<AutomationRule>, event: &AutomationEvent) -> (r: Vec<
    (usize, MatchContext),
>)
    ensures
        matches_view(r@) == matches_upto(rules@, *event, rules@.len() as int),
{
    let mut found: Vec<(usize, MatchContext)> = Vec::new();
    let mut i: usize = 0;
    while i < rules.len()
        invariant
            i <= rules@.len(),
            matches_view(found@) == matches_upto(rules@, *event, i as int),
        decreases rules@.len() - i,
    {
        match match_rule(&rules[i], event) {
            Some(context) => {
                let ghost prev = found@;
                found.push((i, context));
                assert(matches_view(found@) =~= matches_view(prev).push((i as int, context@)));
            },
            None => {},
        }
        i = i + 1;
    }
    found
}

/// The status of a run: `success` with no error, or `failed` with the
/// error.
pub fn execution_status(result: &Result<(), String>) -> (r: (String, Option<String>))
    ensures
        match result {
            Ok(()) => r.0@ == "success"@ && r.1 is None,
            Err(e) => r.0@ == "failed"@ && r.1 == Some(*e),
        },
{
    match result {
        Ok(()) => (String::from_str("success"), None),
        Err(e) => (String::from_str("failed"), Some(e.clone())),
    }
}

} // verus!
