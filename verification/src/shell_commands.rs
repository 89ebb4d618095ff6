//! What the shell does for a global-menu command: the dispatch table from
//! action ids to shell commands, the hand-off of application menu actions,
//! and the notices and notifications those commands show.
use vstd::prelude::*;

use crate::notification_center::NotificationPriority;
use crate::session_actions::{session_action_of, SessionAction};
use crate::text::{
    chars_starts_with, chars_to_string, ends_with, ends_with_str, eq_str, owned, parse_nat,
    parse_u64_chars, push_chars, push_str_chars, replace_char, replace_char_chars, rfind,
    rfind_chars, slice_chars, starts_with, starts_with_str, str_chars,
};

verus! {

/// A presentation change of the focused window.
#[derive(Clone, Copy, Debug, PartialEq, Eq, Structural)]
pub enum WindowAction {
    Close,
    Minimize,
    ToggleZoom,
    ToggleFullscreen,
}

/// Applications the menus launch by bundle id.
#[derive(Clone, Copy, Debug, PartialEq, Eq, Structural)]
pub enum BundledApp {
    Finder,
    Settings,
    SoftwareCatalog,
}

/// Fixed status windows that explain a command the shell cannot carry out.
#[derive(Clone, Copy, Debug, PartialEq, Eq, Structural)]
pub enum ShellNotice {
    RecentItems,
    Save,
    Print,
    Edit,
    Toolbar,
    Sidebar,
    Help,
}

/// Screen capture commands.
#[derive(Clone, Copy, Debug, PartialEq, Eq, Structural)]
pub enum CaptureRequest {
    Screenshot,
    PortalScreenshot,
    StartRecording,
    StopRecording,
}

/// What a global-menu action asks of the shell.
#[derive(Clone, Copy, Debug, PartialEq, Eq, Structural)]
pub enum MenuCommand {
    NewFinderWindow,
    /// Sent to the compositor, which owns the ordinary windows.
    CompositorWindow(WindowAction),
    /// Applied to the shell's own active window, if there is one.
    ActiveShellWindow(WindowAction),
    OpenHome,
    OpenComputer,
    Launch(BundledApp),
    About,
    NotificationCenter,
    ClearNotifications,
    Notice(ShellNotice),
    ForceQuit,
    Session(SessionAction),
    NetworkConnect,
    Capture(CaptureRequest),
    PreviousWorkspace,
    NextWorkspace,
    SwitchWorkspace(usize),
    /// A workspace switch whose index is not a number: nothing happens.
    Ignored,
    Quit,
    NewFolder,
    GetInfo,
    Rename,
    MoveToTrash,
    /// Not a shell action: the active application's menu may own it.
    ForActiveApp,
}

/// Bundle id of a bundled application.
pub open spec fn bundled_app_id(app: BundledApp) -> Seq<char> {
    match app {
        BundledApp::Finder => "com.slopos.finder"@,
        BundledApp::Settings => "com.slopos.settings"@,
        BundledApp::SoftwareCatalog => "com.slopos.appstore"@,
    }
}

impl BundledApp {
    /// The application's bundle id.
    pub fn bundle_id(&self) -> (r: &'static str)
        ensures
            r@ == bundled_app_id(*self),
    {
        match self {
            BundledApp::Finder => "com.slopos.finder",
            BundledApp::Settings => "com.slopos.settings",
            BundledApp::SoftwareCatalog => "com.slopos.appstore",
        }
    }
}

/// A window command goes to the compositor when it owns the ordinary
/// windows, else to the shell's own active window.
pub open spec fn window_command(a: WindowAction, compositor_owns_windows: bool) -> MenuCommand {
    if compositor_owns_windows {
        MenuCommand::CompositorWindow(a)
    } else {
        MenuCommand::ActiveShellWindow(a)
    }
}

/// `s.parse::<usize>().ok()`.
pub open spec fn parse_usize(s: Seq<char>) -> Option<usize> {
    match parse_nat(s) {
        Some(v) => if v <= usize::MAX {
            Some(v as usize)
        } else {
            None
        },
        None => None,
    }
}

/// Index named by a `workspace.switch.<n>` action.
pub open spec fn workspace_switch_index(action: Seq<char>) -> Option<usize> {
    parse_usize(action.skip("workspace.switch."@.len() as int))
}

/// The edit commands that only document-aware applications carry out.
pub open spec fn is_edit_action(action: Seq<char>) -> bool {
    action == "shell.undo"@ || action == "shell.redo"@ || action == "shell.cut"@ || action
        == "shell.copy"@ || action == "shell.paste"@ || action == "shell.select_all"@
}

/// The shell command for a global-menu action id.
pub open spec fn menu_command_of(action: Seq<char>, compositor_owns_windows: bool) -> MenuCommand {
    if action == "shell.new_finder_window"@ {
        MenuCommand::NewFinderWindow
    } else if action == "shell.close_finder_window"@ {
        window_command(WindowAction::Close, compositor_owns_windows)
    } else if action == "shell.zoom_window"@ {
        window_command(WindowAction::ToggleZoom, compositor_owns_windows)
    } else if action == "shell.toggle_fullscreen"@ {
        window_command(WindowAction::ToggleFullscreen, compositor_owns_windows)
    } else if action == "shell.open_home"@ {
        MenuCommand::OpenHome
    } else if action == "shell.open_computer"@ {
        MenuCommand::OpenComputer
    } else if action == "shell.open_finder"@ {
        MenuCommand::Launch(BundledApp::Finder)
    } else if action == "shell.settings"@ {
        MenuCommand::Launch(BundledApp::Settings)
    } else if action == "shell.software_catalog"@ {
        MenuCommand::Launch(BundledApp::SoftwareCatalog)
    } else if action == "shell.about"@ {
        MenuCommand::About
    } else if action == "shell.notification_center"@ {
        MenuCommand::NotificationCenter
    } else if action == "shell.clear_notifications"@ {
        MenuCommand::ClearNotifications
    } else if action == "shell.recent_items"@ {
        MenuCommand::Notice(ShellNotice::RecentItems)
    } else if action == "shell.force_quit"@ {
        MenuCommand::ForceQuit
    } else if session_action_of(action) is Some {
        MenuCommand::Session(session_action_of(action)->0)
    } else if action == "shell.network_connect"@ {
        MenuCommand::NetworkConnect
    } else if action == "shell.save"@ {
        MenuCommand::Notice(ShellNotice::Save)
    } else if action == "shell.print"@ {
        MenuCommand::Notice(ShellNotice::Print)
    } else if action == "shell.screenshot"@ {
        MenuCommand::Capture(CaptureRequest::Screenshot)
    } else if action == "shell.portal_screenshot"@ {
        MenuCommand::Capture(CaptureRequest::PortalScreenshot)
    } else if action == "shell.start_recording"@ {
        MenuCommand::Capture(CaptureRequest::StartRecording)
    } else if action == "shell.stop_recording"@ {
        MenuCommand::Capture(CaptureRequest::StopRecording)
    } else if is_edit_action(action) {
        MenuCommand::Notice(ShellNotice::Edit)
    } else if action == "shell.show_toolbar"@ {
        MenuCommand::Notice(ShellNotice::Toolbar)
    } else if action == "shell.show_sidebar"@ {
        MenuCommand::Notice(ShellNotice::Sidebar)
    } else if action == "shell.help_search"@ {
        MenuCommand::Notice(ShellNotice::Help)
    } else if action == "workspace.previous"@ {
        MenuCommand::PreviousWorkspace
    } else if action == "workspace.next"@ {
        MenuCommand::NextWorkspace
    } else if starts_with(action, "workspace.switch."@) {
        match workspace_switch_index(action) {
            Some(i) => MenuCommand::SwitchWorkspace(i),
            None => MenuCommand::Ignored,
        }
    } else if action == "shell.quit"@ {
        MenuCommand::Quit
    } else if action == "finder.new_folder"@ {
        MenuCommand::NewFolder
    } else if action == "finder.get_info"@ {
        MenuCommand::GetInfo
    } else if action == "finder.rename"@ {
        MenuCommand::Rename
    } else if action == "finder.move_to_trash"@ {
        MenuCommand::MoveToTrash
    } else {
        MenuCommand::ForActiveApp
    }
}

fn window_command_exec(a: WindowAction, compositor_owns_windows: bool) -> (r: MenuCommand)
    ensures
        r == window_command(a, compositor_owns_windows),
{
    if compositor_owns_windows {
        MenuCommand::CompositorWindow(a)
    } else {
        MenuCommand::ActiveShellWindow(a)
    }
}

fn parse_usize_chars(s: &[char]) -> (r: Option<usize>)
    ensures
        r == parse_usize(s@),
{
    match parse_u64_chars(s) {
        Some(v) => {
            if v <= usize::MAX as u64 {
                Some(v as usize)
            } else {
                None
            }
        },
        None => None,
    }
}

fn is_edit_action_exec(v: &[char]) -> (r: bool)
    ensures
        r == is_edit_action(v@),
{
    eq_str(v, "shell.undo") || eq_str(v, "shell.redo") || eq_str(v, "shell.cut") || eq_str(
        v,
        "shell.copy",
    ) || eq_str(v, "shell.paste") || eq_str(v, "shell.select_all")
}

fn workspace_command(v: &[char]) -> (r: MenuCommand)
    requires
        starts_with(v@, "workspace.switch."@),
    ensures
        r == (match workspace_switch_index(v@) {
            Some(i) => MenuCommand::SwitchWorkspace(i),
            None => MenuCommand::Ignored,
        }),
{
    let p = str_chars("workspace.switch.");
    let suffix = slice_chars(v, p.len(), v.len());
    assert(suffix@ =~= v@.skip("workspace.switch."@.len() as int));
    match parse_usize_chars(&suffix) {
        Some(i) => MenuCommand::SwitchWorkspace(i),
        None => MenuCommand::Ignored,
    }
}

/// The shell command for a global-menu action id; window commands go to the
/// compositor when `compositor_owns_windows`.
#[verifier::rlimit(40)]
pub fn menu_command(action: &str, compositor_owns_windows: bool) -> (r: MenuCommand)
    ensures
        r == menu_command_of(action@, compositor_owns_windows),
{
    let v = str_chars(action);
    if eq_str(&v, "shell.new_finder_window") {
        MenuCommand::NewFinderWindow
    } else if eq_str(&v, "shell.close_finder_window") {
        window_command_exec(WindowAction::Close, compositor_owns_windows)
    } else if eq_str(&v, "shell.zoom_window") {
        window_command_exec(WindowAction::ToggleZoom, compositor_owns_windows)
    } else if eq_str(&v, "shell.toggle_fullscreen") {
        window_command_exec(WindowAction::ToggleFullscreen, compositor_owns_windows)
    } else if eq_str(&v, "shell.open_home") {
        MenuCommand::OpenHome
    } else if eq_str(&v, "shell.open_computer") {
        MenuCommand::OpenComputer
    } else if eq_str(&v, "shell.open_finder") {
        MenuCommand::Launch(BundledApp::Finder)
    } else if eq_str(&v, "shell.settings") {
        MenuCommand::Launch(BundledApp::Settings)
    } else if eq_str(&v, "shell.software_catalog") {
        MenuCommand::Launch(BundledApp::SoftwareCatalog)
    } else if eq_str(&v, "shell.about") {
        MenuCommand::About
    } else if eq_str(&v, "shell.notification_center") {
        MenuCommand::NotificationCenter
    } else if eq_str(&v, "shell.clear_notifications") {
        MenuCommand::ClearNotifications
    } else if eq_str(&v, "shell.recent_items") {
        MenuCommand::Notice(ShellNotice::RecentItems)
    } else if eq_str(&v, "shell.force_quit") {
        MenuCommand::ForceQuit
    } else {
        match SessionAction::from_menu_action(action) {
            Some(a) => MenuCommand::Session(a),
            None => menu_command_rest(&v, compositor_owns_windows),
        }
    }
}

fn menu_command_rest(v: &[char], compositor_owns_windows: bool) -> (r: MenuCommand)
    requires
        session_action_of(v@) is None,
        v@ != "shell.new_finder_window"@,
    ensures
        !(v@ == "shell.close_finder_window"@ || v@ == "shell.zoom_window"@ || v@
            == "shell.toggle_fullscreen"@ || v@ == "shell.open_home"@ || v@
            == "shell.open_computer"@ || v@ == "shell.open_finder"@ || v@ == "shell.settings"@
            || v@ == "shell.software_catalog"@ || v@ == "shell.about"@ || v@
            == "shell.notification_center"@ || v@ == "shell.clear_notifications"@ || v@
            == "shell.recent_items"@ || v@ == "shell.force_quit"@) ==> r == menu_command_of(
            v@,
            compositor_owns_windows,
        ),
{
    if eq_str(v, "shell.network_connect") {
        MenuCommand::NetworkConnect
    } else if eq_str(v, "shell.save") {
        MenuCommand::Notice(ShellNotice::Save)
    } else if eq_str(v, "shell.print") {
        MenuCommand::Notice(ShellNotice::Print)
    } else if eq_str(v, "shell.screenshot") {
        MenuCommand::Capture(CaptureRequest::Screenshot)
    } else if eq_str(v, "shell.portal_screenshot") {
        MenuCommand::Capture(CaptureRequest::PortalScreenshot)
    } else if eq_str(v, "shell.start_recording") {
        MenuCommand::Capture(CaptureRequest::StartRecording)
    } else if eq_str(v, "shell.stop_recording") {
        MenuCommand::Capture(CaptureRequest::StopRecording)
    } else if is_edit_action_exec(v) {
        MenuCommand::Notice(ShellNotice::Edit)
    } else if eq_str(v, "shell.show_toolbar") {
        MenuCommand::Notice(ShellNotice::Toolbar)
    } else if eq_str(v, "shell.show_sidebar") {
        MenuCommand::Notice(ShellNotice::Sidebar)
    } else if eq_str(v, "shell.help_search") {
        MenuCommand::Notice(ShellNotice::Help)
    } else if eq_str(v, "workspace.previous") {
        MenuCommand::PreviousWorkspace
    } else if eq_str(v, "workspace.next") {
        MenuCommand::NextWorkspace
    } else if starts_with_str(v, "workspace.switch.") {
        workspace_command(v)
    } else if eq_str(v, "shell.quit") {
        MenuCommand::Quit
    } else if eq_str(v, "finder.new_folder") {
        MenuCommand::NewFolder
    } else if eq_str(v, "finder.get_info") {
        MenuCommand::GetInfo
    } else if eq_str(v, "finder.rename") {
        MenuCommand::Rename
    } else if eq_str(v, "finder.move_to_trash") {
        MenuCommand::MoveToTrash
    } else {
        MenuCommand::ForActiveApp
    }
}

/// What happens to a menu action that is not the shell's own.
#[derive(Clone, Copy, Debug, PartialEq, Eq, Structural)]
pub enum AppMenuCommand {
    /// No application is active, or the action is not in its namespace.
    NotForActiveApp,
    /// A conventional Window-menu entry: still a compositor operation.
    CompositorWindow(WindowAction),
    /// A conventional Window-menu entry, applied to the shell's active window.
    ActiveShellWindow(WindowAction),
    /// Sent to the focused application's live menu endpoint.
    SendToApp,
    /// Outside a live session: a status window describes the action.
    ShowActionInfo,
}

/// The window operation a namespaced Window-menu action names, if any.
pub open spec fn app_window_action(action: Seq<char>) -> Option<WindowAction> {
    if ends_with(action, ".window.minimize"@) {
        Some(WindowAction::Minimize)
    } else if ends_with(action, ".window.zoom"@) {
        Some(WindowAction::ToggleZoom)
    } else if ends_with(action, ".window.fullscreen"@) {
        Some(WindowAction::ToggleFullscreen)
    } else {
        None
    }
}

/// How an action that the shell does not own is handled, given the active
/// application's bundle id: only actions in `<bundle id>.` belong to it.
pub open spec fn app_menu_command_of(
    action: Seq<char>,
    active_app: Option<Seq<char>>,
    compositor_owns_windows: bool,
) -> AppMenuCommand {
    match active_app {
        None => AppMenuCommand::NotForActiveApp,
        Some(app) => if !starts_with(action, app.push('.')) {
            AppMenuCommand::NotForActiveApp
        } else {
            match app_window_action(action) {
                Some(w) => if compositor_owns_windows {
                    AppMenuCommand::CompositorWindow(w)
                } else {
                    AppMenuCommand::ActiveShellWindow(w)
                },
                None => if compositor_owns_windows {
                    AppMenuCommand::SendToApp
                } else {
                    AppMenuCommand::ShowActionInfo
                },
            }
        },
    }
}

fn app_window_action_exec(v: &[char]) -> (r: Option<WindowAction>)
    ensures
        r == app_window_action(v@),
{
    if ends_with_str(v, ".window.minimize") {
        Some(WindowAction::Minimize)
    } else if ends_with_str(v, ".window.zoom") {
        Some(WindowAction::ToggleZoom)
    } else if ends_with_str(v, ".window.fullscreen") {
        Some(WindowAction::ToggleFullscreen)
    } else {
        None
    }
}

/// How an action that the shell does not own is handled, for the active
/// application `active_app`.
pub fn app_menu_command(action: &str, active_app: Option<&str>, compositor_owns_windows: bool) -> (r:
    AppMenuCommand)
    ensures
        r == app_menu_command_of(action@, crate::opt_view(active_app), compositor_owns_windows),
{
    match active_app {
        None => AppMenuCommand::NotForActiveApp,
        Some(app) => {
            let v = str_chars(action);
            let mut prefix = str_chars(app);
            prefix.push('.');
            if !chars_starts_with(&v, &prefix) {
                AppMenuCommand::NotForActiveApp
            } else {
                match app_window_action_exec(&v) {
                    Some(w) => {
                        if compositor_owns_windows {
                            AppMenuCommand::CompositorWindow(w)
                        } else {
                            AppMenuCommand::ActiveShellWindow(w)
                        }
                    },
                    None => {
                        if compositor_owns_windows {
                            AppMenuCommand::SendToApp
                        } else {
                            AppMenuCommand::ShowActionInfo
                        }
                    },
                }
            }
        },
    }
}

/// Label for an action with no menu entry: its last dotted segment, with
/// underscores as spaces.
pub open spec fn action_fallback_label(action: Seq<char>) -> Seq<char> {
    let i = rfind(action, seq!['.']);
    replace_char(
        if i < 0 {
            action
        } else {
            action.skip(i + 1)
        },
        '_',
        ' ',
    )
}

/// The label of `action` shown in its status window: the menu entry's
/// label when it has one, else its fallback label.
pub fn action_label(action: &str, menu_label: Option<&str>) -> (r: String)
    ensures
        r@ == match menu_label {
            Some(l) => l@,
            None => action_fallback_label(action@),
        },
{
    match menu_label {
        Some(l) => owned(l),
        None => {
            let v = str_chars(action);
            let dot: Vec<char> = vec!['.'];
            assert(dot@ =~= seq!['.']);
            let n = v.len();
            let tail = match rfind_chars(&v, &dot) {
                Some(i) => {
                    let t = slice_chars(&v, i + 1, n);
                    assert(t@ =~= v@.skip(i + 1));
                    t
                },
                None => v,
            };
            let label = replace_char_chars(&tail, '_', ' ');
            chars_to_string(&label)
        },
    }
}

/// A status window's title and lines.
pub struct StatusWindowText {
    pub title: String,
    pub lines: Vec<String>,
}

/// Text of the status window for an application's action outside a live
/// session: the application, the action's label and its identifier.
pub fn app_action_info_window(active_app: &str, action: &str, menu_label: Option<&str>) -> (r:
    StatusWindowText)
    ensures
        r.title@ == "Application Menu Action"@,
        r.lines@.len() == 4,
        r.lines@[0]@ == "Application: "@ + active_app@,
        r.lines@[1]@ == "Action: "@ + match menu_label {
            Some(l) => l@,
            None => action_fallback_label(action@),
        },
        r.lines@[2]@ == "Identifier: "@ + action@,
        r.lines@[3]@ == "Cross-process dispatch is available only in a live SLOPOS session."@,
{
    let label = action_label(action, menu_label);
    let mut lines: Vec<String> = Vec::new();
    let mut a: Vec<char> = Vec::new();
    push_str_chars(&mut a, "Application: ");
    push_str_chars(&mut a, active_app);
    lines.push(chars_to_string(&a));
    let mut b: Vec<char> = Vec::new();
    push_str_chars(&mut b, "Action: ");
    push_str_chars(&mut b, label.as_str());
    lines.push(chars_to_string(&b));
    let mut c: Vec<char> = Vec::new();
    push_str_chars(&mut c, "Identifier: ");
    push_str_chars(&mut c, action);
    lines.push(chars_to_string(&c));
    lines.push(owned("Cross-process dispatch is available only in a live SLOPOS session."));
    StatusWindowText { title: owned("Application Menu Action"), lines }
}

/// Title of a notice's status window.
pub open spec fn notice_title(n: ShellNotice) -> Seq<char> {
    match n {
        ShellNotice::RecentItems => "Recent Items"@,
        ShellNotice::Save => "Save"@,
        ShellNotice::Print => "Print"@,
        ShellNotice::Edit => "Edit"@,
        ShellNotice::Toolbar => "Toolbar"@,
        ShellNotice::Sidebar => "Sidebar"@,
        ShellNotice::Help => "Help"@,
    }
}

/// Lines of a notice's status window.
pub open spec fn notice_lines(n: ShellNotice) -> Seq<Seq<char>> {
    match n {
        ShellNotice::RecentItems => seq![
            "Recent item tracking is not populated yet."@,
            "Finder and app launches will be recorded here once session history is wired."@,
        ],
        ShellNotice::Save => seq!["The active shell window has no document to save."@],
        ShellNotice::Print => seq!["Printing is not connected to a system print service yet."@],
        ShellNotice::Edit => seq!["This edit command is only available inside document-aware apps."@],
        ShellNotice::Toolbar => seq![
            "Finder toolbar controls are already visible in shell folder windows."@,
        ],
        ShellNotice::Sidebar => seq!["The internal shell Finder view does not have a sidebar yet."@],
        ShellNotice::Help => seq![
            "Help search is not indexed yet."@,
            "Use README.md for setup, AGENTS.md for the development plan, and TRUTH.md for current status."@,
        ],
    }
}

/// The status window a notice opens.
pub fn notice_window(n: ShellNotice) -> (r: StatusWindowText)
    ensures
        r.title@ == notice_title(n),
        crate::text::string_views(r.lines@) == notice_lines(n),
{
    let mut lines: Vec<String> = Vec::new();
    let title = match n {
        ShellNotice::RecentItems => {
            lines.push(owned("Recent item tracking is not populated yet."));
            lines.push(
                owned(
                    "Finder and app launches will be recorded here once session history is wired.",
                ),
            );
            owned("Recent Items")
        },
        ShellNotice::Save => {
            lines.push(owned("The active shell window has no document to save."));
            owned("Save")
        },
        ShellNotice::Print => {
            lines.push(owned("Printing is not connected to a system print service yet."));
            owned("Print")
        },
        ShellNotice::Edit => {
            lines.push(owned("This edit command is only available inside document-aware apps."));
            owned("Edit")
        },
        ShellNotice::Toolbar => {
            lines.push(
                owned("Finder toolbar controls are already visible in shell folder windows."),
            );
            owned("Toolbar")
        },
        ShellNotice::Sidebar => {
            lines.push(owned("The internal shell Finder view does not have a sidebar yet."));
            owned("Sidebar")
        },
        ShellNotice::Help => {
            lines.push(owned("Help search is not indexed yet."));
            lines.push(
                owned(
                    "Use README.md for setup, AGENTS.md for the development plan, and TRUTH.md for current status.",
                ),
            );
            owned("Help")
        },
    };
    assert(crate::text::string_views(lines@) =~= notice_lines(n));
    StatusWindowText { title, lines }
}

/// A notification the shell posts about its own work.
pub struct ShellNotification {
    pub title: String,
    pub body: String,
    pub priority: NotificationPriority,
}

/// Title of the notification after a capture command: `succeeded` tells
/// which of its two outcomes it reports.
pub open spec fn capture_notification_title(request: CaptureRequest, succeeded: bool) -> Seq<char> {
    match request {
        CaptureRequest::Screenshot | CaptureRequest::PortalScreenshot => if succeeded {
            "Screenshot Saved"@
        } else {
            "Screenshot Failed"@
        },
        CaptureRequest::StartRecording => if succeeded {
            "Screen Recording"@
        } else {
            "Recording Failed"@
        },
        CaptureRequest::StopRecording => if succeeded {
            "Recording Saved"@
        } else {
            "Stop Recording Failed"@
        },
    }
}

/// The notification after a capture command: on success the file it wrote
/// (`Saved to <path>`, or `Recording to <path>` when a recording starts) at
/// normal priority; on failure the error's text at high priority.
pub fn capture_notification(request: CaptureRequest, outcome: Result<&str, &str>) -> (r:
    ShellNotification)
    ensures
        r.title@ == capture_notification_title(request, outcome is Ok),
        match outcome {
            Ok(path) => r.priority == NotificationPriority::Normal && r.body@ == (if request
                == CaptureRequest::StartRecording {
                "Recording to "@
            } else {
                "Saved to "@
            }) + path@,
            Err(e) => r.priority == NotificationPriority::High && r.body@ == e@,
        },
{
    let ok = outcome.is_ok();
    let title = match request {
        CaptureRequest::Screenshot | CaptureRequest::PortalScreenshot => if ok {
            owned("Screenshot Saved")
        } else {
            owned("Screenshot Failed")
        },
        CaptureRequest::StartRecording => if ok {
            owned("Screen Recording")
        } else {
            owned("Recording Failed")
        },
        CaptureRequest::StopRecording => if ok {
            owned("Recording Saved")
        } else {
            owned("Stop Recording Failed")
        },
    };
    match outcome {
        Ok(path) => {
            let mut b: Vec<char> = Vec::new();
            match request {
                CaptureRequest::StartRecording => push_str_chars(&mut b, "Recording to "),
                _ => push_str_chars(&mut b, "Saved to "),
            }
            push_str_chars(&mut b, path);
            ShellNotification {
                title,
                body: chars_to_string(&b),
                priority: NotificationPriority::Normal,
            }
        },
        Err(e) => ShellNotification { title, body: owned(e), priority: NotificationPriority::High },
    }
}

/// Window commands of the shell's menus reach the compositor exactly when it
/// owns the ordinary windows, and the shell's own active window otherwise;
/// whom the windows belong to changes nothing else about a command.
pub proof fn law_window_commands_follow_window_owner(action: Seq<char>)
    ensures
        !(menu_command_of(action, true) is ActiveShellWindow),
        !(menu_command_of(action, false) is CompositorWindow),
        menu_command_of(action, true) is CompositorWindow <==> menu_command_of(
            action,
            false,
        ) is ActiveShellWindow,
        menu_command_of(action, true) is CompositorWindow ==> menu_command_of(
            action,
            true,
        )->CompositorWindow_0 == menu_command_of(action, false)->ActiveShellWindow_0,
        !(menu_command_of(action, true) is CompositorWindow) ==> menu_command_of(action, true)
            == menu_command_of(action, false),
{
}

/// Window-menu entries in an application's own menu stay window operations,
/// never sent to the application: they go to the compositor exactly when it
/// owns the ordinary windows.
pub proof fn law_app_window_entries_stay_window_operations(
    action: Seq<char>,
    app: Seq<char>,
    compositor_owns_windows: bool,
)
    requires
        app_window_action(action) is Some,
        starts_with(action, app.push('.')),
    ensures
        app_menu_command_of(action, Some(app), compositor_owns_windows) == if compositor_owns_windows {
            AppMenuCommand::CompositorWindow(app_window_action(action)->0)
        } else {
            AppMenuCommand::ActiveShellWindow(app_window_action(action)->0)
        },
{
}

} // verus!
