//! Accessible actions for shell chrome (AT-SPI Action interface, as a pure map).
//!
//! Maps focus targets and common widgets to named actions an assistive
//! technology can invoke, and resolves pending invocations into shell plans.
use vstd::prelude::*;

use crate::chrome_protocol::ChromeFocusTarget;
use crate::session_actions::{session_action_of, SessionAction};
use crate::text::{
    contains_seq, contains_str, ends_with, ends_with_str, eq_ignore_case, eq_ignore_case_str,
    eq_str, owned, starts_with, starts_with_str, str_chars, trim, trim_chars, trim_end_char,
    trim_end_char_chars,
};

verus! {

/// Named accessible action (AT-SPI Action.name style).
#[derive(Clone, Debug, Eq, PartialEq)]
pub struct AccessibleAction {
    pub name: String,
    pub description: String,
    /// Shell menu / session action id when applicable.
    pub invoke_id: String,
}

/// An action described by its name, description and invoke id.
pub type ActionText = (Seq<char>, Seq<char>, Seq<char>);

/// `a` carries exactly the texts of `t`.
pub open spec fn action_is(a: AccessibleAction, t: ActionText) -> bool {
    a.name@ == t.0 && a.description@ == t.1 && a.invoke_id@ == t.2
}

/// The actions of `v` are, in order, those of `table`.
pub open spec fn actions_are(v: Seq<AccessibleAction>, table: Seq<ActionText>) -> bool {
    &&& v.len() == table.len()
    &&& forall|i: int| 0 <= i < v.len() ==> action_is(#[trigger] v[i], table[i])
}

/// Actions offered on each chrome focus region.
pub open spec fn chrome_action_table(t: ChromeFocusTarget) -> Seq<ActionText> {
    match t {
        ChromeFocusTarget::MenuBar => seq![
            ("click"@, "Open the focused menu"@, "chrome.menu.activate"@),
            ("show-menu"@, "Show the Retro system menu"@, "chrome.menu.system"@),
        ],
        ChromeFocusTarget::Dock => seq![
            ("click"@, "Launch or focus the dock item"@, "chrome.dock.activate"@),
            ("show-menu"@, "Show dock item context menu"@, "chrome.dock.menu"@),
        ],
        ChromeFocusTarget::DesktopIcons => seq![
            ("click"@, "Open the selected desktop icon"@, "chrome.desktop.open"@),
            ("show-menu"@, "Show desktop context menu"@, "chrome.desktop.menu"@),
        ],
        ChromeFocusTarget::Windows => seq![
            ("activate"@, "Raise and focus the window"@, "chrome.window.activate"@),
            ("close"@, "Close the focused window"@, "chrome.window.close"@),
            ("minimize"@, "Minimize the focused window"@, "chrome.window.minimize"@),
        ],
    }
}

/// Session-level actions available from the shell root.
pub open spec fn session_action_table() -> Seq<ActionText> {
    seq![
        ("lock-screen"@, "Lock the session"@, "shell.lock"@),
        ("log-out"@, "Log out of the session"@, "shell.log_out"@),
        ("notification-center"@, "Open the notification center"@, "shell.notification_center"@),
        ("force-quit"@, "Open Force Quit"@, "shell.force_quit"@),
        ("next-workspace"@, "Switch to the next workspace"@, "workspace.next"@),
        ("previous-workspace"@, "Switch to the previous workspace"@, "workspace.previous"@),
    ]
}

fn action(name: &str, description: &str, invoke_id: &str) -> (r: AccessibleAction)
    ensures
        action_is(r, (name@, description@, invoke_id@)),
{
    AccessibleAction {
        name: owned(name),
        description: owned(description),
        invoke_id: owned(invoke_id),
    }
}

/// Actions available for a chrome focus region.
pub fn actions_for_chrome(target: ChromeFocusTarget) -> (r: Vec<AccessibleAction>)
    ensures
        actions_are(r@, chrome_action_table(target)),
{
    let mut v: Vec<AccessibleAction> = Vec::new();
    match target {
        ChromeFocusTarget::MenuBar => {
            v.push(action("click", "Open the focused menu", "chrome.menu.activate"));
            v.push(action("show-menu", "Show the Retro system menu", "chrome.menu.system"));
        },
        ChromeFocusTarget::Dock => {
            v.push(action("click", "Launch or focus the dock item", "chrome.dock.activate"));
            v.push(action("show-menu", "Show dock item context menu", "chrome.dock.menu"));
        },
        ChromeFocusTarget::DesktopIcons => {
            v.push(action("click", "Open the selected desktop icon", "chrome.desktop.open"));
            v.push(action("show-menu", "Show desktop context menu", "chrome.desktop.menu"));
        },
        ChromeFocusTarget::Windows => {
            v.push(action("activate", "Raise and focus the window", "chrome.window.activate"));
            v.push(action("close", "Close the focused window", "chrome.window.close"));
            v.push(action("minimize", "Minimize the focused window", "chrome.window.minimize"));
        },
    }
    v
}

/// Session-level accessible actions always available from the shell root.
pub fn session_root_actions() -> (r: Vec<AccessibleAction>)
    ensures
        actions_are(r@, session_action_table()),
{
    let mut v: Vec<AccessibleAction> = Vec::new();
    v.push(action("lock-screen", "Lock the session", "shell.lock"));
    v.push(action("log-out", "Log out of the session", "shell.log_out"));
    v.push(
        action("notification-center", "Open the notification center", "shell.notification_center"),
    );
    v.push(action("force-quit", "Open Force Quit", "shell.force_quit"));
    v.push(action("next-workspace", "Switch to the next workspace", "workspace.next"));
    v.push(action("previous-workspace", "Switch to the previous workspace", "workspace.previous"));
    v
}

/// Shell dispatch target of an accessible invoke id.
#[derive(Clone, Debug, Eq, PartialEq)]
pub enum A11yDispatchTarget {
    /// Open the system menu.
    ChromeMenuActivate,
    /// Launch or focus first dock item.
    ChromeDockActivate,
    /// Dock item context menu.
    ChromeDockMenu,
    /// Open selected desktop icon.
    ChromeDesktopOpen,
    /// Desktop context menu.
    ChromeDesktopMenu,
    /// Focus next non-minimized window on the active workspace.
    ChromeWindowActivateNext,
    /// Close the active window.
    ChromeWindowClose,
    /// Minimize the active window.
    ChromeWindowMinimize,
    /// A core session action routed through the shell menu handlers.
    MenuAction(&'static str),
    /// Any other `shell.*` / `workspace.*` / `finder.*` / `com.slopos.*` id.
    MenuActionOwned(String),
    /// Unrecognized invoke id.
    Unknown,
}

/// Invoke id a dispatch target stands for.
pub open spec fn dispatch_id(t: A11yDispatchTarget) -> Option<Seq<char>> {
    match t {
        A11yDispatchTarget::ChromeMenuActivate => Some("chrome.menu.activate"@),
        A11yDispatchTarget::ChromeDockActivate => Some("chrome.dock.activate"@),
        A11yDispatchTarget::ChromeDockMenu => Some("chrome.dock.menu"@),
        A11yDispatchTarget::ChromeDesktopOpen => Some("chrome.desktop.open"@),
        A11yDispatchTarget::ChromeDesktopMenu => Some("chrome.desktop.menu"@),
        A11yDispatchTarget::ChromeWindowActivateNext => Some("chrome.window.activate"@),
        A11yDispatchTarget::ChromeWindowClose => Some("chrome.window.close"@),
        A11yDispatchTarget::ChromeWindowMinimize => Some("chrome.window.minimize"@),
        A11yDispatchTarget::MenuAction(id) => Some(id@),
        A11yDispatchTarget::MenuActionOwned(id) => Some(id@),
        A11yDispatchTarget::Unknown => None,
    }
}

impl A11yDispatchTarget {
    /// Whether dispatch runs a real shell side effect: every target but `Unknown`.
    pub fn is_live(&self) -> (r: bool)
        ensures
            r == !(*self is Unknown),
    {
        match self {
            A11yDispatchTarget::Unknown => false,
            _ => true,
        }
    }

    /// Stable invoke id string when known.
    pub fn invoke_id(&self) -> (r: Option<&str>)
        ensures
            match r {
                Some(x) => dispatch_id(*self) == Some(x@),
                None => dispatch_id(*self) is None,
            },
    {
        match self {
            A11yDispatchTarget::ChromeMenuActivate => Some("chrome.menu.activate"),
            A11yDispatchTarget::ChromeDockActivate => Some("chrome.dock.activate"),
            A11yDispatchTarget::ChromeDockMenu => Some("chrome.dock.menu"),
            A11yDispatchTarget::ChromeDesktopOpen => Some("chrome.desktop.open"),
            A11yDispatchTarget::ChromeDesktopMenu => Some("chrome.desktop.menu"),
            A11yDispatchTarget::ChromeWindowActivateNext => Some("chrome.window.activate"),
            A11yDispatchTarget::ChromeWindowClose => Some("chrome.window.close"),
            A11yDispatchTarget::ChromeWindowMinimize => Some("chrome.window.minimize"),
            A11yDispatchTarget::MenuAction(id) => Some(*id),
            A11yDispatchTarget::MenuActionOwned(id) => Some(id.as_str()),
            A11yDispatchTarget::Unknown => None,
        }
    }
}

/// `t` is `MenuAction` with id `id`.
pub open spec fn is_menu_action(t: A11yDispatchTarget, id: Seq<char>) -> bool {
    match t {
        A11yDispatchTarget::MenuAction(x) => x@ == id,
        _ => false,
    }
}

/// Invoke ids routed to the menu handlers by prefix.
pub open spec fn menu_prefixed(s: Seq<char>) -> bool {
    starts_with(s, "shell."@) || starts_with(s, "workspace."@) || starts_with(s, "finder."@)
        || starts_with(s, "com.slopos."@)
}

/// `r` is the dispatch target of invoke id `s`.
pub open spec fn classified_as(s: Seq<char>, r: A11yDispatchTarget) -> bool {
    if s == "chrome.menu.activate"@ || s == "chrome.menu.system"@ {
        r == A11yDispatchTarget::ChromeMenuActivate
    } else if s == "chrome.dock.activate"@ {
        r == A11yDispatchTarget::ChromeDockActivate
    } else if s == "chrome.dock.menu"@ {
        r == A11yDispatchTarget::ChromeDockMenu
    } else if s == "chrome.desktop.open"@ {
        r == A11yDispatchTarget::ChromeDesktopOpen
    } else if s == "chrome.desktop.menu"@ {
        r == A11yDispatchTarget::ChromeDesktopMenu
    } else if s == "chrome.window.activate"@ {
        r == A11yDispatchTarget::ChromeWindowActivateNext
    } else if s == "chrome.window.close"@ {
        r == A11yDispatchTarget::ChromeWindowClose
    } else if s == "chrome.window.minimize"@ {
        r == A11yDispatchTarget::ChromeWindowMinimize
    } else if s == "shell.lock"@ {
        is_menu_action(r, "shell.lock"@)
    } else if s == "shell.log_out"@ || s == "shell.logout"@ {
        is_menu_action(r, "shell.log_out"@)
    } else if s == "shell.notification_center"@ {
        is_menu_action(r, "shell.notification_center"@)
    } else if s == "shell.force_quit"@ {
        is_menu_action(r, "shell.force_quit"@)
    } else if s == "workspace.next"@ {
        is_menu_action(r, "workspace.next"@)
    } else if s == "workspace.previous"@ {
        is_menu_action(r, "workspace.previous"@)
    } else if menu_prefixed(s) {
        match r {
            A11yDispatchTarget::MenuActionOwned(x) => x@ == s,
            _ => false,
        }
    } else {
        r == A11yDispatchTarget::Unknown
    }
}

/// Invoke ids whose dispatch reaches a live shell handler.
pub open spec fn invoke_is_live(s: Seq<char>) -> bool {
    ||| s == "chrome.menu.activate"@
    ||| s == "chrome.menu.system"@
    ||| s == "chrome.dock.activate"@
    ||| s == "chrome.dock.menu"@
    ||| s == "chrome.desktop.open"@
    ||| s == "chrome.desktop.menu"@
    ||| s == "chrome.window.activate"@
    ||| s == "chrome.window.close"@
    ||| s == "chrome.window.minimize"@
    ||| s == "shell.logout"@
    ||| menu_prefixed(s)
}

/// Map invoke_id → dispatch target (no I/O).
pub fn classify_a11y_invoke(invoke_id: &str) -> (r: A11yDispatchTarget)
    ensures
        classified_as(invoke_id@, r),
        (r is Unknown) == !invoke_is_live(invoke_id@),
{
    proof {
        reveal_strlit("shell.lock");
        reveal_strlit("shell.log_out");
        reveal_strlit("shell.logout");
        reveal_strlit("shell.notification_center");
        reveal_strlit("shell.force_quit");
        reveal_strlit("workspace.next");
        reveal_strlit("workspace.previous");
        reveal_strlit("shell.");
        reveal_strlit("workspace.");
    }
    let s = str_chars(invoke_id);
    if eq_str(&s, "chrome.menu.activate") || eq_str(&s, "chrome.menu.system") {
        A11yDispatchTarget::ChromeMenuActivate
    } else if eq_str(&s, "chrome.dock.activate") {
        A11yDispatchTarget::ChromeDockActivate
    } else if eq_str(&s, "chrome.dock.menu") {
        A11yDispatchTarget::ChromeDockMenu
    } else if eq_str(&s, "chrome.desktop.open") {
        A11yDispatchTarget::ChromeDesktopOpen
    } else if eq_str(&s, "chrome.desktop.menu") {
        A11yDispatchTarget::ChromeDesktopMenu
    } else if eq_str(&s, "chrome.window.activate") {
        A11yDispatchTarget::ChromeWindowActivateNext
    } else if eq_str(&s, "chrome.window.close") {
        A11yDispatchTarget::ChromeWindowClose
    } else if eq_str(&s, "chrome.window.minimize") {
        A11yDispatchTarget::ChromeWindowMinimize
    } else if eq_str(&s, "shell.lock") {
        assert(s@.take(6) =~= "shell."@);
        A11yDispatchTarget::MenuAction("shell.lock")
    } else if eq_str(&s, "shell.log_out") || eq_str(&s, "shell.logout") {
        assert(s@.take(6) =~= "shell."@);
        A11yDispatchTarget::MenuAction("shell.log_out")
    } else if eq_str(&s, "shell.notification_center") {
        assert(s@.take(6) =~= "shell."@);
        A11yDispatchTarget::MenuAction("shell.notification_center")
    } else if eq_str(&s, "shell.force_quit") {
        assert(s@.take(6) =~= "shell."@);
        A11yDispatchTarget::MenuAction("shell.force_quit")
    } else if eq_str(&s, "workspace.next") {
        assert(s@.take(10) =~= "workspace."@);
        A11yDispatchTarget::MenuAction("workspace.next")
    } else if eq_str(&s, "workspace.previous") {
        assert(s@.take(10) =~= "workspace."@);
        A11yDispatchTarget::MenuAction("workspace.previous")
    } else if starts_with_str(&s, "shell.") || starts_with_str(&s, "workspace.") || starts_with_str(
        &s,
        "finder.",
    ) || starts_with_str(&s, "com.slopos.") {
        A11yDispatchTarget::MenuActionOwned(owned(invoke_id))
    } else {
        A11yDispatchTarget::Unknown
    }
}

/// True when an accessible DoAction on this invoke_id reaches a live shell handler.
pub fn a11y_invoke_is_live(invoke_id: &str) -> (r: bool)
    ensures
        r == invoke_is_live(invoke_id@),
{
    classify_a11y_invoke(invoke_id).is_live()
}

/// Map an accessible action invoke_id to a session action when applicable.
pub fn session_action_for_invoke(invoke_id: &str) -> (r: Option<SessionAction>)
    ensures
        r == session_action_of(invoke_id@),
{
    SessionAction::from_menu_action(invoke_id)
}

/// AT-SPI Action interface summary for a path.
#[derive(Clone, Debug, Eq, PartialEq)]
pub struct ActionInterfaceSummary {
    pub path: String,
    pub n_actions: i32,
    pub names: Vec<String>,
    pub descriptions: Vec<String>,
}

/// Summary of `actions` at `path`: their count and, in order, their names and
/// descriptions.
pub fn summarize_actions(path: &str, actions: &[AccessibleAction]) -> (r: ActionInterfaceSummary)
    ensures
        r.path@ == path@,
        r.n_actions == actions@.len() as i32,
        r.names@.len() == actions@.len(),
        r.descriptions@.len() == actions@.len(),
        forall|i: int|
            0 <= i < actions@.len() ==> (#[trigger] r.names@[i])@ == actions@[i].name@
                && r.descriptions@[i]@ == actions@[i].description@,
{
    let mut names: Vec<String> = Vec::new();
    let mut descriptions: Vec<String> = Vec::new();
    let mut i: usize = 0;
    while i < actions.len()
        invariant
            i <= actions@.len(),
            names@.len() == i,
            descriptions@.len() == i,
            forall|k: int|
                0 <= k < i ==> (#[trigger] names@[k])@ == actions@[k].name@ && descriptions@[k]@
                    == actions@[k].description@,
        decreases actions@.len() - i,
    {
        names.push(actions[i].name.clone());
        descriptions.push(actions[i].description.clone());
        i = i + 1;
    }
    let n: i32 = actions.len() as i32;
    ActionInterfaceSummary { path: owned(path), n_actions: n, names, descriptions }
}

/// DoInvoke plan: which shell handler to call.
#[derive(Clone, Debug, Eq, PartialEq)]
pub struct InvokePlan {
    pub invoke_id: String,
    pub valid: bool,
}

/// Plan for action `index` among actions with the given invoke ids: that id,
/// valid, when in range; an empty, invalid plan otherwise.
pub open spec fn plan_at(ids: Seq<Seq<char>>, index: int) -> (Seq<char>, bool) {
    if 0 <= index < ids.len() {
        (ids[index], true)
    } else {
        (Seq::empty(), false)
    }
}

/// Invoke ids of a sequence of actions.
pub open spec fn invoke_ids(v: Seq<AccessibleAction>) -> Seq<Seq<char>> {
    Seq::new(v.len(), |i: int| v[i].invoke_id@)
}

/// Invoke ids of an action table.
pub open spec fn table_ids(t: Seq<ActionText>) -> Seq<Seq<char>> {
    Seq::new(t.len(), |i: int| t[i].2)
}

/// `p` is the plan `(id, valid)`.
pub open spec fn plan_is(p: InvokePlan, q: (Seq<char>, bool)) -> bool {
    p.invoke_id@ == q.0 && p.valid == q.1
}

fn invalid_plan() -> (r: InvokePlan)
    ensures
        plan_is(r, (Seq::empty(), false)),
{
    InvokePlan { invoke_id: String::new(), valid: false }
}

/// Plan for the action at `index`.
pub fn plan_invoke(actions: &[AccessibleAction], index: i32) -> (r: InvokePlan)
    ensures
        plan_is(r, plan_at(invoke_ids(actions@), index as int)),
{
    if index < 0 {
        return invalid_plan();
    }
    let i: usize = index as usize;
    if i < actions.len() {
        InvokePlan { invoke_id: actions[i].invoke_id.clone(), valid: true }
    } else {
        invalid_plan()
    }
}

proof fn lemma_table_ids(v: Seq<AccessibleAction>, t: Seq<ActionText>)
    requires
        actions_are(v, t),
    ensures
        invoke_ids(v) == table_ids(t),
{
    assert forall|i: int| 0 <= i < v.len() implies invoke_ids(v)[i] == table_ids(t)[i] by {
        assert(action_is(v[i], t[i]));
    }
    assert(invoke_ids(v) =~= table_ids(t));
}

/// Primary (index 0) invoke for the focused chrome region.
pub fn primary_invoke_for_chrome(target: ChromeFocusTarget) -> (r: InvokePlan)
    ensures
        plan_is(r, plan_at(table_ids(chrome_action_table(target)), 0)),
        r.valid,
{
    let actions = actions_for_chrome(target);
    proof {
        lemma_table_ids(actions@, chrome_action_table(target));
    }
    plan_invoke(&actions, 0)
}

/// Chrome region whose accessible root is at `path` (trailing `/` ignored;
/// nested `…/cN` children are not roots).
pub open spec fn chrome_target_of_path(path: Seq<char>) -> Option<ChromeFocusTarget> {
    let p = trim_end_char(path, '/');
    if contains_seq(p, "/c"@) {
        None
    } else if p == "/org/a11y/atspi/accessible/0"@ {
        Some(ChromeFocusTarget::MenuBar)
    } else if p == "/org/a11y/atspi/accessible/1"@ {
        Some(ChromeFocusTarget::DesktopIcons)
    } else if p == "/org/a11y/atspi/accessible/2"@ {
        Some(ChromeFocusTarget::Dock)
    } else if p == "/org/a11y/atspi/accessible/3"@ {
        Some(ChromeFocusTarget::Windows)
    } else {
        None
    }
}

/// Map an AT-SPI accessible path to a chrome focus target when it is a chrome region root.
pub fn chrome_target_for_atspi_path(path: &str) -> (r: Option<ChromeFocusTarget>)
    ensures
        r == chrome_target_of_path(path@),
{
    let raw = str_chars(path);
    let p = trim_end_char_chars(&raw, '/');
    if contains_str(&p, "/c") {
        return None;
    }
    if eq_str(&p, "/org/a11y/atspi/accessible/0") {
        Some(ChromeFocusTarget::MenuBar)
    } else if eq_str(&p, "/org/a11y/atspi/accessible/1") {
        Some(ChromeFocusTarget::DesktopIcons)
    } else if eq_str(&p, "/org/a11y/atspi/accessible/2") {
        Some(ChromeFocusTarget::Dock)
    } else if eq_str(&p, "/org/a11y/atspi/accessible/3") {
        Some(ChromeFocusTarget::Windows)
    } else {
        None
    }
}

/// Shell invoke id of a known (trimmed) accessible object name.
pub open spec fn object_invoke(n: Seq<char>) -> Option<Seq<char>> {
    if n == "Lock Screen"@ || n == "lock-screen"@ {
        Some("shell.lock"@)
    } else if n == "Log Out…"@ || n == "Log Out..."@ || n == "log-out"@ {
        Some("shell.log_out"@)
    } else if n == "Sleep"@ || n == "Suspend"@ {
        Some("shell.suspend"@)
    } else if n == "Restart…"@ || n == "Restart..."@ || n == "Reboot"@ {
        Some("shell.reboot"@)
    } else if n == "Shut Down…"@ || n == "Shut Down..."@ || n == "Power Off"@ {
        Some("shell.power_off"@)
    } else if n == "Force Quit..."@ || n == "Force Quit…"@ {
        Some("shell.force_quit"@)
    } else if n == "Notification Center..."@ || n == "Notification Center…"@ {
        Some("shell.notification_center"@)
    } else if n == "System Settings..."@ || n == "System Settings…"@ {
        Some("shell.settings"@)
    } else if n == "About SLOPOS-I"@ {
        Some("shell.about"@)
    } else if n == "Quit SLOPOS-I"@ {
        Some("shell.quit"@)
    } else if n == "Next Workspace"@ || n == "next-workspace"@ {
        Some("workspace.next"@)
    } else if n == "Previous Workspace"@ || n == "previous-workspace"@ {
        Some("workspace.previous"@)
    } else {
        None
    }
}

/// Map a known accessible object name (menu item label / a11y Name) to a shell invoke id.
pub fn invoke_id_for_object_name(name: &str) -> (r: Option<&'static str>)
    ensures
        match r {
            Some(x) => object_invoke(trim(name@)) == Some(x@),
            None => object_invoke(trim(name@)) is None,
        },
{
    let raw = str_chars(name);
    let n = trim_chars(&raw);
    if eq_str(&n, "Lock Screen") || eq_str(&n, "lock-screen") {
        Some("shell.lock")
    } else if eq_str(&n, "Log Out…") || eq_str(&n, "Log Out...") || eq_str(&n, "log-out") {
        Some("shell.log_out")
    } else if eq_str(&n, "Sleep") || eq_str(&n, "Suspend") {
        Some("shell.suspend")
    } else if eq_str(&n, "Restart…") || eq_str(&n, "Restart...") || eq_str(&n, "Reboot") {
        Some("shell.reboot")
    } else if eq_str(&n, "Shut Down…") || eq_str(&n, "Shut Down...") || eq_str(&n, "Power Off") {
        Some("shell.power_off")
    } else if eq_str(&n, "Force Quit...") || eq_str(&n, "Force Quit…") {
        Some("shell.force_quit")
    } else if eq_str(&n, "Notification Center...") || eq_str(&n, "Notification Center…") {
        Some("shell.notification_center")
    } else if eq_str(&n, "System Settings...") || eq_str(&n, "System Settings…") {
        Some("shell.settings")
    } else if eq_str(&n, "About SLOPOS-I") {
        Some("shell.about")
    } else if eq_str(&n, "Quit SLOPOS-I") {
        Some("shell.quit")
    } else if eq_str(&n, "Next Workspace") || eq_str(&n, "next-workspace") {
        Some("workspace.next")
    } else if eq_str(&n, "Previous Workspace") || eq_str(&n, "previous-workspace") {
        Some("workspace.previous")
    } else {
        None
    }
}

/// Plan for a pending accessible DoAction, by priority: a known object name;
/// else a chrome region root (its primary action on Focus/Activate, else the
/// action at `action_index`); else the application root's session actions;
/// else no plan.
pub open spec fn resolve_plan(
    path: Seq<char>,
    object_name: Seq<char>,
    action_index: int,
    action_name: Seq<char>,
) -> (Seq<char>, bool) {
    match object_invoke(trim(object_name)) {
        Some(id) => (id, true),
        None => match chrome_target_of_path(path) {
            Some(t) => {
                let ids = table_ids(chrome_action_table(t));
                if (eq_ignore_case(action_name, "Focus"@) || eq_ignore_case(
                    action_name,
                    "Activate"@,
                )) && plan_at(ids, 0).1 {
                    plan_at(ids, 0)
                } else {
                    plan_at(ids, action_index)
                }
            },
            None => if path == "/org/a11y/atspi/accessible/root"@ || ends_with(path, "/root"@) {
                plan_at(table_ids(session_action_table()), action_index)
            } else {
                (Seq::empty(), false)
            },
        },
    }
}

/// Resolve a pending DoAction into a shell invoke plan.
pub fn resolve_pending_invoke(
    path: &str,
    object_name: &str,
    action_index: i32,
    action_name: &str,
) -> (r: InvokePlan)
    ensures
        plan_is(r, resolve_plan(path@, object_name@, action_index as int, action_name@)),
{
    if let Some(id) = invoke_id_for_object_name(object_name) {
        return InvokePlan { invoke_id: owned(id), valid: true };
    }
    if let Some(target) = chrome_target_for_atspi_path(path) {
        let actions = actions_for_chrome(target);
        proof {
            lemma_table_ids(actions@, chrome_action_table(target));
        }
        let an = str_chars(action_name);
        if eq_ignore_case_str(&an, "Focus") || eq_ignore_case_str(&an, "Activate") {
            let plan = primary_invoke_for_chrome(target);
            if plan.valid {
                return plan;
            }
        }
        return plan_invoke(&actions, action_index);
    }
    let p = str_chars(path);
    if eq_str(&p, "/org/a11y/atspi/accessible/root") || ends_with_str(&p, "/root") {
        let actions = session_root_actions();
        proof {
            lemma_table_ids(actions@, session_action_table());
        }
        return plan_invoke(&actions, action_index);
    }
    invalid_plan()
}

} // verus!
