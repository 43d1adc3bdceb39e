//! How stored rules change: their initial status, what an update keeps,
//! toggling, and a missing rule.
use vstd::prelude::*;

use crate::models::{AutomationInput, AutomationRule};

verus! {

/// The error for a rule that is not stored.
pub open spec fn rule_not_found() -> Seq<char> {
    "Rule not found"@
}

/// `create_rule`, the status a new rule is stored with: the given one, else
/// `never`.
pub fn initial_status(status: &Option<String>) -> (r: Option<String>)
    ensures
        match status {
            Some(s) => r == Some(*s),
            None => r matches Some(n) && n@ == "never"@,
        },
{
    match status {
        Some(s) => Some(s.clone()),
        None => Some(String::from_str("never")),
    }
}

/// The last run that an update stores: the input's, else the stored one.
pub open spec fn merged_last_run(input: AutomationInput, existing: AutomationRule) -> Option<String> {
    if input.last_run is Some {
        input.last_run
    } else {
        existing.last_run
    }
}

/// The status that an update stores: the input's, else the stored one.
pub open spec fn merged_status(input: AutomationInput, existing: AutomationRule) -> Option<String> {
    if input.status is Some {
        input.status
    } else {
        existing.status
    }
}

/// The rule that `update_rule` stores over `existing`: the input's fields,
/// the creation time kept, the time of the update, and the merged last run
/// and status.
pub open spec fn updated_rule(
    input: AutomationInput,
    existing: AutomationRule,
    updated_at: String,
) -> AutomationRule {
    AutomationRule {
        id: input.id,
        active: input.active,
        name: input.name,
        topic: input.topic,
        match_type: input.match_type,
        match_value: input.match_value,
        action_type: input.action_type,
        action_value: input.action_value,
        module_id: input.module_id,
        action_config: input.action_config,
        arguments: input.arguments,
        working_directory: input.working_directory,
        created_at: existing.created_at,
        updated_at,
        last_run: merged_last_run(input, existing),
        status: merged_status(input, existing),
    }
}

/// `update_rule`, the last run and the status that are stored: those of the
/// input where it has them, else those already stored.
pub fn merged_run_state(input: &AutomationInput, existing: &AutomationRule) -> (r: (
    Option<String>,
    Option<String>,
))
    ensures
        r.0 == merged_last_run(*input, *existing),
        r.1 == merged_status(*input, *existing),
{
    let last_run = match &input.last_run {
        Some(l) => Some(l.clone()),
        None => existing.last_run.clone(),
    };
    let status = match &input.status {
        Some(s) => Some(s.clone()),
        None => existing.status.clone(),
    };
    (last_run, status)
}

/// The update that toggling a stored rule makes: the rule with its
/// `active` flag flipped and every other field kept.
pub open spec fn toggle_input(current: AutomationRule) -> AutomationInput {
    AutomationInput {
        id: current.id,
        active: !current.active,
        name: current.name,
        topic: current.topic,
        match_type: current.match_type,
        match_value: current.match_value,
        action_type: current.action_type,
        action_value: current.action_value,
        module_id: current.module_id,
        action_config: current.action_config,
        arguments: current.arguments,
        working_directory: current.working_directory,
        last_run: current.last_run,
        status: current.status,
    }
}

/// `toggle_rule`, the update: the stored rule with its `active` flag
/// flipped and every other field kept.
pub fn toggled(current: AutomationRule) -> (r: AutomationInput)
    ensures
        r == toggle_input(current),
{
    AutomationInput {
        id: current.id,
        active: !current.active,
        name: current.name,
        topic: current.topic,
        match_type: current.match_type,
        match_value: current.match_value,
        action_type: current.action_type,
        action_value: current.action_value,
        module_id: current.module_id,
        action_config: current.action_config,
        arguments: current.arguments,
        working_directory: current.working_directory,
        last_run: current.last_run,
        status: current.status,
    }
}

/// The rule that a lookup found, or the error that it is not stored.
pub fn found_rule(row: Option<AutomationRule>) -> (r: Result<AutomationRule, String>)
    ensures
        match row {
            Some(rule) => r == Ok::<AutomationRule, String>(rule),
            None => r matches Err(e) && e@ == rule_not_found(),
        },
{
    match row {
        Some(rule) => Ok(rule),
        None => Err(String::from_str("Rule not found")),
    }
}

/// `delete_rule`, the outcome: an error when no row was deleted.
pub fn deletion_result(affected: usize) -> (r: Result<(), String>)
    ensures
        affected == 0 <==> r is Err,
        r matches Err(e) ==> e@ == rule_not_found(),
{
    if affected == 0 {
        Err(String::from_str("Rule not found"))
    } else {
        Ok(())
    }
}

} // verus!
