//! The tray: what each menu entry does, and the label of the entry that
//! shows or hides the main window.
use vstd::prelude::*;

use crate::text::str_is;

verus! {

/// What a tray menu entry asks for.
#[derive(Debug, Clone, Copy, PartialEq, Eq, Structural)]
pub enum TrayCommand {
    ToggleWindow,
    Automation,
    Webhook,
    Logs,
    Autostart,
    Config,
    CheckUpdates,
    ResetInstance,
    Exit,
}

/// The command of each menu entry id.
pub open spec fn spec_tray_command(id: Seq<char>) -> Option<TrayCommand> {
    if id == "open"@ {
        Some(TrayCommand::ToggleWindow)
    } else if id == "automation"@ {
        Some(TrayCommand::Automation)
    } else if id == "webhook"@ {
        Some(TrayCommand::Webhook)
    } else if id == "logs"@ {
        Some(TrayCommand::Logs)
    } else if id == "autostart"@ {
        Some(TrayCommand::Autostart)
    } else if id == "config"@ {
        Some(TrayCommand::Config)
    } else if id == "check_updates"@ {
        Some(TrayCommand::CheckUpdates)
    } else if id == "reset_instance"@ {
        Some(TrayCommand::ResetInstance)
    } else if id == "exit"@ {
        Some(TrayCommand::Exit)
    } else {
        None
    }
}

/// The command of a menu entry; other ids do nothing.
pub fn tray_command(id: &str) -> (r: Option<TrayCommand>)
    ensures
        r == spec_tray_command(id@),
{
    if str_is(id, "open") {
        Some(TrayCommand::ToggleWindow)
    } else if str_is(id, "automation") {
        Some(TrayCommand::Automation)
    } else if str_is(id, "webhook") {
        Some(TrayCommand::Webhook)
    } else if str_is(id, "logs") {
        Some(TrayCommand::Logs)
    } else if str_is(id, "autostart") {
        Some(TrayCommand::Autostart)
    } else if str_is(id, "config") {
        Some(TrayCommand::Config)
    } else if str_is(id, "check_updates") {
        Some(TrayCommand::CheckUpdates)
    } else if str_is(id, "reset_instance") {
        Some(TrayCommand::ResetInstance)
    } else if str_is(id, "exit") {
        Some(TrayCommand::Exit)
    } else {
        None
    }
}

/// `window_is_shown`: the main window counts as shown when it is visible
/// and not minimized.
pub fn window_shown(visible: bool, minimized: bool) -> (r: bool)
    ensures
        r == (visible && !minimized),
{
    visible && !minimized
}

/// `window_tray_label`: the entry offers to hide a shown window and to
/// show a hidden one.
pub fn window_label(shown: bool) -> (r: &'static str)
    ensures
        r@ == if shown {
            "Hide"@
        } else {
            "Show"@
        },
{
    if shown {
        "Hide"
    } else {
        "Show"
    }
}

} // verus!
