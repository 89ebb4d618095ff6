//! Session actions (lock, log out, sleep, restart, shut down) and the menu
//! action ids that request them.
use vstd::prelude::*;

use crate::text::{eq_str, str_chars};

verus! {

/// A session-level action the shell can perform.
#[derive(Clone, Copy, Debug, Eq, PartialEq, Structural)]
pub enum SessionAction {
    Lock,
    Logout,
    Suspend,
    Reboot,
    PowerOff,
}

/// Session action requested by a menu action id.
pub open spec fn session_action_of(id: Seq<char>) -> Option<SessionAction> {
    if id == "shell.lock"@ {
        Some(SessionAction::Lock)
    } else if id == "shell.log_out"@ || id == "shell.logout"@ {
        Some(SessionAction::Logout)
    } else if id == "shell.suspend"@ || id == "shell.sleep"@ {
        Some(SessionAction::Suspend)
    } else if id == "shell.reboot"@ || id == "shell.restart"@ {
        Some(SessionAction::Reboot)
    } else if id == "shell.power_off"@ || id == "shell.shutdown"@ || id == "shell.poweroff"@ {
        Some(SessionAction::PowerOff)
    } else {
        None
    }
}

impl SessionAction {
    /// Map a shell menu action id to the session action it requests.
    pub fn from_menu_action(id: &str) -> (r: Option<SessionAction>)
        ensures
            r == session_action_of(id@),
    {
        let v = str_chars(id);
        if eq_str(&v, "shell.lock") {
            Some(SessionAction::Lock)
        } else if eq_str(&v, "shell.log_out") || eq_str(&v, "shell.logout") {
            Some(SessionAction::Logout)
        } else if eq_str(&v, "shell.suspend") || eq_str(&v, "shell.sleep") {
            Some(SessionAction::Suspend)
        } else if eq_str(&v, "shell.reboot") || eq_str(&v, "shell.restart") {
            Some(SessionAction::Reboot)
        } else if eq_str(&v, "shell.power_off") || eq_str(&v, "shell.shutdown") || eq_str(
            &v,
            "shell.poweroff",
        ) {
            Some(SessionAction::PowerOff)
        } else {
            None
        }
    }
}

/// Whether the action ends the session or the machine's run (log out,
/// restart, shut down), and so runs only when activated a second time.
pub open spec fn needs_confirmation(a: SessionAction) -> bool {
    a == SessionAction::Logout || a == SessionAction::Reboot || a == SessionAction::PowerOff
}

impl SessionAction {
    /// Whether this action waits for a second activation before it runs.
    pub fn requires_confirmation(&self) -> (r: bool)
        ensures
            r == needs_confirmation(*self),
    {
        match self {
            SessionAction::Logout | SessionAction::Reboot | SessionAction::PowerOff => true,
            _ => false,
        }
    }
}

/// What an activation of a session action leads to.
#[derive(Clone, Copy, Debug, Eq, PartialEq, Structural)]
pub enum ConfirmationStep {
    /// A prompt asks for the same command again; nothing runs yet.
    AskToConfirm,
    /// The action runs.
    Run,
}

/// The action awaiting confirmation afterwards, and the step taken, when
/// `action` is activated while `pending` awaits confirmation.
pub open spec fn confirmation_step_of(pending: Option<SessionAction>, action: SessionAction) -> (
    Option<SessionAction>,
    ConfirmationStep,
) {
    if !needs_confirmation(action) {
        (None, ConfirmationStep::Run)
    } else if pending != Some(action) {
        (Some(action), ConfirmationStep::AskToConfirm)
    } else {
        (None, ConfirmationStep::Run)
    }
}

/// Activation of `action` while `pending` awaits confirmation: the action
/// awaiting confirmation afterwards, and whether `action` runs now.
pub fn confirmation_step(pending: Option<SessionAction>, action: SessionAction) -> (r: (
    Option<SessionAction>,
    ConfirmationStep,
))
    ensures
        r == confirmation_step_of(pending, action),
{
    if !action.requires_confirmation() {
        return (None, ConfirmationStep::Run);
    }
    let same = match pending {
        Some(p) => p == action,
        None => false,
    };
    if same {
        (None, ConfirmationStep::Run)
    } else {
        (Some(action), ConfirmationStep::AskToConfirm)
    }
}

/// A session action that asks to be confirmed runs exactly when it was
/// itself the action awaiting confirmation; any other action runs at once.
/// After an action runs nothing awaits confirmation, and an action that was
/// asked to be confirmed runs when it is activated once more.
pub proof fn law_destructive_actions_run_on_second_activation(
    pending: Option<SessionAction>,
    action: SessionAction,
)
    ensures
        (confirmation_step_of(pending, action).1 == ConfirmationStep::Run) <==> (!needs_confirmation(
            action,
        ) || pending == Some(action)),
        confirmation_step_of(pending, action).1 == ConfirmationStep::Run ==> confirmation_step_of(
            pending,
            action,
        ).0 is None,
        confirmation_step_of(pending, action).1 == ConfirmationStep::AskToConfirm
            ==> confirmation_step_of(confirmation_step_of(pending, action).0, action).1
            == ConfirmationStep::Run,
{
}

/// Title of the status window that asks to confirm `action`.
pub open spec fn confirmation_title_of(a: SessionAction) -> Seq<char> {
    match a {
        SessionAction::Logout => "Log Out"@,
        SessionAction::Reboot => "Restart"@,
        SessionAction::PowerOff => "Shut Down"@,
        _ => "Session Action"@,
    }
}

/// Title of the status window that asks to confirm `action`.
pub fn confirmation_title(a: SessionAction) -> (r: &'static str)
    ensures
        r@ == confirmation_title_of(a),
{
    match a {
        SessionAction::Logout => "Log Out",
        SessionAction::Reboot => "Restart",
        SessionAction::PowerOff => "Shut Down",
        _ => "Session Action",
    }
}

} // verus!
