//! Default session window rules: per-window hints (workspace, task-list
//! visibility) matched on the window's application id or title.
use vstd::prelude::*;

use crate::text::eq_str;

verus! {

/// What a matching rule asks of a window.
#[derive(Clone, Copy, Debug, Eq, PartialEq, Structural)]
pub struct WindowRuleActions {
    /// Workspace to place the window on.
    pub workspace: Option<u8>,
    /// Keep the window out of the task list and Force Quit.
    pub skip_taskbar: bool,
}

/// Actions of the first default session rule matching a window: the
/// terminal goes to workspace 1; the shell's own Force Quit window stays out
/// of the task list.
pub open spec fn default_rule_actions(app_id: Seq<char>, title: Seq<char>) -> Option<WindowRuleActions> {
    if app_id == "org.slopos-i.Terminal"@ {
        Some(WindowRuleActions { workspace: Some(1), skip_taskbar: false })
    } else if title == "Force Quit"@ {
        Some(WindowRuleActions { workspace: None, skip_taskbar: true })
    } else {
        None
    }
}

/// Evaluate the default session rules for a window.
pub fn evaluate_default_rules(app_id: &[char], title: &[char]) -> (r: Option<WindowRuleActions>)
    ensures
        r == default_rule_actions(app_id@, title@),
{
    if eq_str(app_id, "org.slopos-i.Terminal") {
        Some(WindowRuleActions { workspace: Some(1), skip_taskbar: false })
    } else if eq_str(title, "Force Quit") {
        Some(WindowRuleActions { workspace: None, skip_taskbar: true })
    } else {
        None
    }
}

} // verus!
