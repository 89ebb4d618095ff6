//! Session shell policy library: chrome layout, keyboard and accessibility
//! dispatch, idle policy, notifications, locale handling, display
//! arrangement, application discovery and search, the DBusMenu importer,
//! the dock, launcher and lock screen, and the shell desktop's decisions
//! (this root module), each stated over a mathematical model and proved.
pub mod text;
pub mod chrome_protocol;
pub mod keyboard_nav;
pub mod layer_shell_client;
pub mod session_actions;
pub mod theme_manager;
pub mod notification_center;
pub mod a11y_actions;
pub mod conf;
pub mod a11y_prefs;
pub mod idle_policy;
pub mod fdo_notifications;
pub mod i18n;
pub mod display_arrange;
pub mod window_rules;
pub mod foreign_toplevel;
pub mod foreign_toplevel_client;
pub mod app_finder;
pub mod appmenu;
pub mod audio;
pub mod capture;
pub mod menu_server;
pub mod lock_geometry;
pub mod launch_services;
pub mod bundle;
pub mod dock;
pub mod application_registry;
pub mod launcher;
pub mod atspi_bus;
pub mod app_index;
pub mod lock_client;
pub mod app_finder_laws;
pub mod gmenu;
pub mod shell_commands;
pub mod folder_listing;

use vstd::prelude::*;

verus! {

/// Shell-level errors.
#[derive(Debug)]
pub enum ShellError {
    Service(String),
    Window(String),
    Launch(String),
    Theme(String),
    Menu(String),
}

/// Message of a shell error.
pub open spec fn shell_error_message(e: ShellError) -> Seq<char> {
    match e {
        ShellError::Service(m) => "service error: "@ + m@,
        ShellError::Window(m) => "window error: "@ + m@,
        ShellError::Launch(m) => "launch error: "@ + m@,
        ShellError::Theme(m) => "theme error: "@ + m@,
        ShellError::Menu(m) => "menu error: "@ + m@,
    }
}

impl ShellError {
    /// The error's message: its kind, `: `, and the detail.
    pub fn message(&self) -> (r: String)
        ensures
            r@ == shell_error_message(*self),
    {
        let (prefix, detail) = match self {
            ShellError::Service(m) => ("service error: ", m),
            ShellError::Window(m) => ("window error: ", m),
            ShellError::Launch(m) => ("launch error: ", m),
            ShellError::Theme(m) => ("theme error: ", m),
            ShellError::Menu(m) => ("menu error: ", m),
        };
        text::concat2(prefix, detail.as_str())
    }
}

/// Lock-screen password check: an empty entry never unlocks; otherwise
/// only an exact match does.
pub fn verify_lock_password(entered: &str, expected: &str) -> (r: bool)
    ensures
        r == (entered@.len() > 0 && entered@ == expected@),
{
    !text::str_is_empty(entered) && text::str_eq(entered, expected)
}

/// A key event on the shell's own lock screen.
#[derive(Clone, Copy, Debug, PartialEq, Eq, Structural)]
pub enum LockScreenInput {
    Escape,
    Enter,
    /// A typed character or Backspace: it edits the password field.
    Edit,
    /// Any other event.
    Other,
}

/// What the lock screen does with an event; it consumes every event.
#[derive(Clone, Copy, Debug, PartialEq, Eq, Structural)]
pub enum LockScreenResponse {
    /// The field and any error message are cleared.
    Cleared,
    /// The password matched: the session unlocks and the field is cleared.
    Unlock,
    /// The password did not match: the field is cleared and
    /// "Incorrect password" shown.
    Rejected,
    /// No lock password is configured: Enter does nothing.
    NoPassword,
    /// The event goes to the password field and any error is cleared.
    Edit,
    /// The event is swallowed.
    Swallowed,
}

/// The lock screen's response to `input` with `entered` in the field, when
/// the lock password is `expected`.
pub open spec fn lock_screen_response_of(
    input: LockScreenInput,
    entered: Seq<char>,
    expected: Option<Seq<char>>,
) -> LockScreenResponse {
    match input {
        LockScreenInput::Escape => LockScreenResponse::Cleared,
        LockScreenInput::Enter => match expected {
            None => LockScreenResponse::NoPassword,
            Some(p) => if entered.len() > 0 && entered == p {
                LockScreenResponse::Unlock
            } else {
                LockScreenResponse::Rejected
            },
        },
        LockScreenInput::Edit => LockScreenResponse::Edit,
        LockScreenInput::Other => LockScreenResponse::Swallowed,
    }
}

/// The lock screen's response to `input` with `entered` in the password
/// field, when the lock password is `expected` (`None`: not configured).
pub fn lock_screen_response(input: LockScreenInput, entered: &str, expected: Option<&str>) -> (r:
    LockScreenResponse)
    ensures
        r == lock_screen_response_of(input, entered@, opt_view(expected)),
{
    match input {
        LockScreenInput::Escape => LockScreenResponse::Cleared,
        LockScreenInput::Enter => match expected {
            None => LockScreenResponse::NoPassword,
            Some(p) => if verify_lock_password(entered, p) {
                LockScreenResponse::Unlock
            } else {
                LockScreenResponse::Rejected
            },
        },
        LockScreenInput::Edit => LockScreenResponse::Edit,
        LockScreenInput::Other => LockScreenResponse::Swallowed,
    }
}

/// The lock screen unlocks only on Enter, only when a lock password is
/// configured, and only when the field holds exactly that password and is
/// not empty: never on an empty, wrong or other key.
pub proof fn law_lock_screen_unlocks_only_on_enter_with_match(
    input: LockScreenInput,
    entered: Seq<char>,
    expected: Option<Seq<char>>,
)
    ensures
        (lock_screen_response_of(input, entered, expected) == LockScreenResponse::Unlock) <==> (
        input == LockScreenInput::Enter && expected == Some(entered) && entered.len() > 0),
{
}

/// The value of the first `lock_password=` line of a settings file whose
/// trimmed value is not empty.
pub open spec fn conf_lock_password(ls: Seq<Seq<char>>) -> Option<Seq<char>>
    decreases ls.len(),
{
    if ls.len() == 0 {
        None
    } else if text::starts_with(ls[0], "lock_password="@) && text::trim(
        ls[0].skip(14),
    ).len() > 0 {
        Some(text::trim(ls[0].skip(14)))
    } else {
        conf_lock_password(ls.drop_first())
    }
}

/// The lock password: the trimmed environment value when it is not empty,
/// else the first non-empty `lock_password=` value of the settings text.
pub open spec fn lock_password(env_value: Option<Seq<char>>, conf_text: Option<Seq<char>>) -> Option<
    Seq<char>,
> {
    if env_value is Some && text::trim(env_value->0).len() > 0 {
        Some(text::trim(env_value->0))
    } else {
        match conf_text {
            Some(t) => conf_lock_password(text::lines(t)),
            None => None,
        }
    }
}

/// Picks the lock password from the `SLOPOS_LOCK_PASSWORD` value and the
/// settings file text, each as read (`None` when unset or unreadable).
pub fn lock_password_from(env_value: Option<&str>, conf_text: Option<&str>) -> (r: Option<String>)
    ensures
        match r {
            Some(p) => lock_password(
                opt_view(env_value),
                opt_view(conf_text),
            ) == Some(p@),
            None => lock_password(opt_view(env_value), opt_view(conf_text)) is None,
        },
{
    if let Some(e) = env_value {
        let t = text::trim_chars(&text::str_chars(e));
        if t.len() > 0 {
            return Some(text::chars_to_string(&t));
        }
    }
    assert(!(opt_view(env_value) is Some && text::trim(opt_view(env_value)->0).len() > 0));
    match conf_text {
        None => None,
        Some(c) => {
            let ls = text::split_lines(&text::str_chars(c));
            let ghost all = text::lines(c@);
            let mut i: usize = 0;
            assert(all.skip(0) =~= all);
            while i < ls.len()
                invariant
                    i <= ls@.len(),
                    text::views(ls@) == all,
                    all == text::lines(c@),
                    conf_lock_password(all) == conf_lock_password(all.skip(i as int)),
                    opt_view(conf_text) == Some(c@),
                    !(opt_view(env_value) is Some && text::trim(opt_view(env_value)->0).len() > 0),
                decreases ls@.len() - i,
            {
                let line = &ls[i];
                assert(all.skip(i as int)[0] == line@);
                assert(all.skip(i as int).drop_first() =~= all.skip(i + 1));
                proof {
                    reveal_strlit("lock_password=");
                }
                if text::starts_with_str(line, "lock_password=") {
                    let v = text::trim_chars(&text::slice_chars(line, 14, line.len()));
                    assert(line@.skip(14) =~= line@.subrange(14, line@.len() as int));
                    if v.len() > 0 {
                        assert(conf_lock_password(all.skip(i as int)) == Some(v@));
                        return Some(text::chars_to_string(&v));
                    }
                }
                i = i + 1;
            }
            assert(all.skip(i as int) =~= Seq::<Seq<char>>::empty());
            None
        },
    }
}

/// The view of an optional string.
pub open spec fn opt_view(s: Option<&str>) -> Option<Seq<char>> {
    match s {
        Some(v) => Some(v@),
        None => None,
    }
}

/// A foreign toplevel belongs to a bundle only when its application id,
/// trimmed, is exactly the bundle id.
pub fn foreign_toplevel_matches_bundle(app_id: &str, bundle_id: &str) -> (r: bool)
    ensures
        r == (text::trim(app_id@) == bundle_id@),
{
    let a = text::str_chars(app_id);
    let t = text::trim_chars(&a);
    let b = text::str_chars(bundle_id);
    text::chars_eq(&t, &b)
}

/// What a dock press does for an application.
#[derive(Debug, Clone, Copy, PartialEq, Eq, Structural)]
pub enum DockActivation {
    ActivateExisting,
    LaunchNew,
}

/// A dock press activates a running client of the application, else
/// launches a new one.
pub fn dock_activation_for_existing_client(existing_client: bool) -> (r: DockActivation)
    ensures
        r == (if existing_client {
            DockActivation::ActivateExisting
        } else {
            DockActivation::LaunchNew
        }),
{
    if existing_client {
        DockActivation::ActivateExisting
    } else {
        DockActivation::LaunchNew
    }
}

/// What a click on a button of a shell window does.
#[derive(Debug, Clone, Copy, PartialEq, Eq, Structural)]
pub enum WindowButtonAction {
    /// Close the window.
    Close,
    /// Force-quit the selected entry, then close the window.
    ForceQuit,
}

/// The action of a button, by window title and button label: `Cancel` in
/// Force Quit and `OK` in About close the window; `Force Quit` in Force
/// Quit force-quits; any other button does nothing.
pub open spec fn window_button_action_of(title: Seq<char>, label: Seq<char>) -> Option<
    WindowButtonAction,
> {
    if (title == "Force Quit"@ && label == "Cancel"@) || (title == "About SLOPOS-I"@ && label
        == "OK"@) {
        Some(WindowButtonAction::Close)
    } else if title == "Force Quit"@ && label == "Force Quit"@ {
        Some(WindowButtonAction::ForceQuit)
    } else {
        None
    }
}

/// Decide what a clicked button of a shell window does.
pub fn window_button_action(window_title: &str, button_label: &str) -> (r: Option<
    WindowButtonAction,
>)
    ensures
        r == window_button_action_of(window_title@, button_label@),
{
    let force_quit = text::str_eq(window_title, "Force Quit");
    if (force_quit && text::str_eq(button_label, "Cancel")) || (text::str_eq(
        window_title,
        "About SLOPOS-I",
    ) && text::str_eq(button_label, "OK")) {
        Some(WindowButtonAction::Close)
    } else if force_quit && text::str_eq(button_label, "Force Quit") {
        Some(WindowButtonAction::ForceQuit)
    } else {
        None
    }
}

/// What activating an icon in a folder window opens.
#[derive(Debug, Clone, Copy, PartialEq, Eq, Structural)]
pub enum IconActivation {
    OpenFolder,
    OpenFile,
}

/// A folder icon opens its directory when it is one; any other icon opens
/// its path as a file when the path exists and is not a directory.
pub open spec fn icon_activation_of(icon: Option<Seq<char>>, path_is_dir: bool, path_exists: bool) -> Option<
    IconActivation,
> {
    if icon == Some("folder"@) {
        if path_is_dir {
            Some(IconActivation::OpenFolder)
        } else {
            None
        }
    } else if path_exists && !path_is_dir {
        Some(IconActivation::OpenFile)
    } else {
        None
    }
}

/// Decide what an activated folder-window icon opens, from its icon name
/// and what the file system says of its path.
pub fn folder_icon_activation(icon: Option<&str>, path_is_dir: bool, path_exists: bool) -> (r:
    Option<IconActivation>)
    ensures
        r == icon_activation_of(opt_view(icon), path_is_dir, path_exists),
{
    let is_folder = match icon {
        Some(i) => text::str_eq(i, "folder"),
        None => false,
    };
    proof {
        reveal_strlit("folder");
    }
    if is_folder {
        if path_is_dir {
            Some(IconActivation::OpenFolder)
        } else {
            None
        }
    } else if path_exists && !path_is_dir {
        Some(IconActivation::OpenFile)
    } else {
        None
    }
}

/// The menu action a workspace-grid cell press sends from the Workspace
/// window: `workspace.switch.{cell}`; other windows send none.
pub fn workspace_switch_action(window_title: &str, cell: usize) -> (r: Option<String>)
    ensures
        match r {
            Some(a) => window_title@ == "Workspace"@ && a@ == "workspace.switch."@ + text::dec(
                cell as nat,
            ),
            None => window_title@ != "Workspace"@,
        },
{
    if text::str_eq(window_title, "Workspace") {
        let mut v = text::str_chars("workspace.switch.");
        text::push_decimal(&mut v, cell as u64);
        Some(text::chars_to_string(&v))
    } else {
        None
    }
}

/// Windows on the active Space: its entry in the per-Space counts, 0 when
/// the counts do not reach it.
pub fn active_window_count(counts: &[usize], active: usize) -> (r: usize)
    ensures
        r == (if active < counts@.len() {
            counts@[active as int]
        } else {
            0
        }),
{
    if active < counts.len() {
        counts[active]
    } else {
        0
    }
}

/// The Workspace window's summary line: `Active: {name} ({n} windows)`.
pub fn workspace_active_summary(name: &str, visible_count: usize) -> (r: String)
    ensures
        r@ == "Active: "@ + name@ + " ("@ + text::dec(visible_count as nat) + " windows)"@,
{
    let mut v = text::str_chars("Active: ");
    text::push_str_chars(&mut v, name);
    text::push_str_chars(&mut v, " (");
    text::push_decimal(&mut v, visible_count as u64);
    text::push_str_chars(&mut v, " windows)");
    text::chars_to_string(&v)
}

/// The desktop's fixed icons as (label, icon name): Hard Disk, Home,
/// Applications and Trash, before the application shortcuts.
pub fn default_desktop_icons() -> (r: Vec<(String, String)>)
    ensures
        launch_services::string_pair_views(r@) == seq![
            ("Hard Disk"@, "drive"@),
            ("Home"@, "home"@),
            ("Applications"@, "applications"@),
            ("Trash"@, "trash"@),
        ],
{
    let mut v: Vec<(String, String)> = Vec::new();
    v.push((text::owned("Hard Disk"), text::owned("drive")));
    v.push((text::owned("Home"), text::owned("home")));
    v.push((text::owned("Applications"), text::owned("applications")));
    v.push((text::owned("Trash"), text::owned("trash")));
    assert(launch_services::string_pair_views(v@) =~= seq![
        ("Hard Disk"@, "drive"@),
        ("Home"@, "home"@),
        ("Applications"@, "applications"@),
        ("Trash"@, "trash"@),
    ]);
    v
}

/// The bundle a compositor application id stands for: one of the shell's
/// own applications, named by its short name or its bundle id (trimmed,
/// ASCII case ignored).
pub open spec fn bundle_for_app_id(app_id: Seq<char>) -> Option<Seq<char>> {
    let id = text::lower(text::trim(app_id));
    if id == "finder"@ || id == "com.slopos.finder"@ {
        Some("com.slopos.finder"@)
    } else if id == "settings"@ || id == "com.slopos.settings"@ {
        Some("com.slopos.settings"@)
    } else if id == "terminal"@ || id == "com.slopos.terminal"@ {
        Some("com.slopos.terminal"@)
    } else if id == "textedit"@ || id == "com.slopos.textedit"@ {
        Some("com.slopos.textedit"@)
    } else if id == "appstore"@ || id == "com.slopos.appstore"@ {
        Some("com.slopos.appstore"@)
    } else {
        None
    }
}

/// Map a compositor application id to the shell bundle it stands for.
pub fn bundle_id_for_foreign_app_id(app_id: &str) -> (r: Option<&'static str>)
    ensures
        match r {
            Some(b) => bundle_for_app_id(app_id@) == Some(b@),
            None => bundle_for_app_id(app_id@) is None,
        },
{
    let id = text::lower_chars(&text::trim_chars(&text::str_chars(app_id)));
    if text::eq_str(&id, "finder") || text::eq_str(&id, "com.slopos.finder") {
        Some("com.slopos.finder")
    } else if text::eq_str(&id, "settings") || text::eq_str(&id, "com.slopos.settings") {
        Some("com.slopos.settings")
    } else if text::eq_str(&id, "terminal") || text::eq_str(&id, "com.slopos.terminal") {
        Some("com.slopos.terminal")
    } else if text::eq_str(&id, "textedit") || text::eq_str(&id, "com.slopos.textedit") {
        Some("com.slopos.textedit")
    } else if text::eq_str(&id, "appstore") || text::eq_str(&id, "com.slopos.appstore") {
        Some("com.slopos.appstore")
    } else {
        None
    }
}

/// The window Tab-focus moves to, as a position among the `count` windows
/// of the active Space: the first when no window is active, else the one
/// after the active window's position (the first position when the active
/// window is not among them), wrapping around; none when the Space is empty.
pub fn next_focus_position(count: usize, has_active: bool, active_position: Option<usize>) -> (r:
    Option<usize>)
    requires
        active_position matches Some(p) ==> p < count,
    ensures
        count == 0 ==> r is None,
        count > 0 ==> r == Some(
            (if !has_active {
                0
            } else {
                ((match active_position {
                    Some(p) => p as int,
                    None => 0,
                }) + 1) % (count as int)
            }) as usize,
        ),
{
    if count == 0 {
        return None;
    }
    if !has_active {
        return Some(0);
    }
    let pos = match active_position {
        Some(p) => p,
        None => 0,
    };
    Some((pos + 1) % count)
}

/// The first `app_id=` line's value of the compositor's active-toplevel
/// record, trimmed (empty when there is none).
pub open spec fn active_app_id_line(ls: Seq<Seq<char>>) -> Seq<char>
    decreases ls.len(),
{
    if ls.len() == 0 {
        Seq::empty()
    } else if text::starts_with(ls[0], "app_id="@) {
        text::trim(ls[0].skip(7))
    } else {
        active_app_id_line(ls.drop_first())
    }
}

/// The focused client's application id from the active-toplevel record:
/// `Some(None)` when it names none, `Some(Some(id))` for an id without
/// control characters, `None` for an id with them.
pub open spec fn active_app_id_of(contents: Seq<char>) -> Option<Option<Seq<char>>> {
    let id = active_app_id_line(text::lines(contents));
    if id.len() == 0 {
        Some(None)
    } else if forall|i: int| 0 <= i < id.len() ==> !lock_client::is_control(#[trigger] id[i]) {
        Some(Some(id))
    } else {
        None
    }
}

/// Read the focused client's application id from the text of the
/// compositor's active-toplevel record.
pub fn active_app_id_from_record(contents: &str) -> (r: Option<Option<String>>)
    ensures
        match r {
            Some(Some(id)) => active_app_id_of(contents@) == Some(Some(id@)),
            Some(None) => active_app_id_of(contents@) == Some(None::<Seq<char>>),
            None => active_app_id_of(contents@) is None,
        },
{
    let ls = text::split_lines(&text::str_chars(contents));
    let ghost all = text::lines(contents@);
    let mut i: usize = 0;
    let mut found: Option<Vec<char>> = None;
    assert(all.skip(0) =~= all);
    while i < ls.len() && found.is_none()
        invariant
            i <= ls@.len(),
            text::views(ls@) == all,
            found is None ==> active_app_id_line(all) == active_app_id_line(all.skip(i as int)),
            found matches Some(v) ==> active_app_id_line(all) == v@,
        decreases ls@.len() - i,
    {
        let line = &ls[i];
        assert(all.skip(i as int)[0] == line@);
        assert(all.skip(i as int).drop_first() =~= all.skip(i + 1));
        proof {
            reveal_strlit("app_id=");
        }
        if text::starts_with_str(line, "app_id=") {
            let v = text::trim_chars(&text::slice_chars(line, 7, line.len()));
            assert(line@.skip(7) =~= line@.subrange(7, line@.len() as int));
            found = Some(v);
        }
        i = i + 1;
    }
    let id = match found {
        Some(v) => v,
        None => {
            assert(all.skip(i as int) =~= Seq::<Seq<char>>::empty());
            Vec::new()
        },
    };
    if id.len() == 0 {
        return Some(None);
    }
    let mut k: usize = 0;
    while k < id.len()
        invariant
            k <= id@.len(),
            id@.len() > 0,
            id@ == active_app_id_line(text::lines(contents@)),
            forall|j: int| 0 <= j < k ==> !lock_client::is_control(#[trigger] id@[j]),
        decreases id@.len() - k,
    {
        let u = id[k] as u32;
        if u <= 0x1f || (0x7f <= u && u <= 0x9f) {
            assert(lock_client::is_control(id@[k as int]));
            return None;
        }
        k = k + 1;
    }
    Some(Some(text::chars_to_string(&id)))
}

/// What activating a desktop icon does.
#[derive(Debug)]
pub enum DesktopItemAction {
    /// Launch the application bundle the icon stands for.
    LaunchBundle(String),
    /// Launch the Finder (the Applications icon).
    LaunchFinder,
    /// Open the home folder.
    OpenHome,
    /// Open the root folder (the Hard Disk icon).
    OpenHardDisk,
    /// Open the trash folder.
    OpenTrash,
    /// Nothing.
    Nothing,
}

/// A desktop icon's action as texts.
pub ghost enum DesktopItemPlan {
    LaunchBundle(Seq<char>),
    LaunchFinder,
    OpenHome,
    OpenHardDisk,
    OpenTrash,
    Nothing,
}

/// The plan an action carries out.
pub open spec fn item_plan(a: DesktopItemAction) -> DesktopItemPlan {
    match a {
        DesktopItemAction::LaunchBundle(b) => DesktopItemPlan::LaunchBundle(b@),
        DesktopItemAction::LaunchFinder => DesktopItemPlan::LaunchFinder,
        DesktopItemAction::OpenHome => DesktopItemPlan::OpenHome,
        DesktopItemAction::OpenHardDisk => DesktopItemPlan::OpenHardDisk,
        DesktopItemAction::OpenTrash => DesktopItemPlan::OpenTrash,
        DesktopItemAction::Nothing => DesktopItemPlan::Nothing,
    }
}

/// An icon whose icon name is one of the shortcut bundles launches that
/// bundle; otherwise the fixed icons do their part by label.
pub open spec fn desktop_item_plan(label: Seq<char>, icon: Option<Seq<char>>, bundle_ids: Seq<Seq<char>>) -> DesktopItemPlan {
    if icon is Some && bundle_ids.contains(icon->0) {
        DesktopItemPlan::LaunchBundle(icon->0)
    } else if label == "Applications"@ {
        DesktopItemPlan::LaunchFinder
    } else if label == "Home"@ {
        DesktopItemPlan::OpenHome
    } else if label == "Hard Disk"@ {
        DesktopItemPlan::OpenHardDisk
    } else if label == "Trash"@ {
        DesktopItemPlan::OpenTrash
    } else {
        DesktopItemPlan::Nothing
    }
}

/// Decide what activating a desktop icon does, from its label, its icon
/// name and the bundles shown as shortcuts.
pub fn desktop_item_action(label: &str, icon: Option<&str>, bundle_ids: &[String]) -> (r:
    DesktopItemAction)
    ensures
        item_plan(r) == desktop_item_plan(label@, opt_view(icon), text::string_views(bundle_ids@)),
{
    let ghost ids = text::string_views(bundle_ids@);
    if let Some(i) = icon {
        let iv = text::str_chars(i);
        let mut k: usize = 0;
        while k < bundle_ids.len()
            invariant
                k <= bundle_ids@.len(),
                ids == text::string_views(bundle_ids@),
                iv@ == i@,
                icon == Some(i),
                forall|j: int| 0 <= j < k ==> ids[j] != i@,
            decreases bundle_ids@.len() - k,
        {
            if text::eq_str(&iv, bundle_ids[k].as_str()) {
                assert(ids[k as int] == i@);
                assert(ids.contains(i@));
                return DesktopItemAction::LaunchBundle(text::owned(i));
            }
            k = k + 1;
        }
        assert(!ids.contains(i@));
    }
    if text::str_eq(label, "Applications") {
        DesktopItemAction::LaunchFinder
    } else if text::str_eq(label, "Home") {
        DesktopItemAction::OpenHome
    } else if text::str_eq(label, "Hard Disk") {
        DesktopItemAction::OpenHardDisk
    } else if text::str_eq(label, "Trash") {
        DesktopItemAction::OpenTrash
    } else {
        DesktopItemAction::Nothing
    }
}

/// What the global menu bar does after the focused client changed.
#[derive(Debug)]
pub enum AppMenuSync {
    /// Show this bundle's application menus.
    Activate(String),
    /// Go back to the shell's own menus.
    ResetToShell,
    /// Leave the menus as they are.
    Keep,
}

/// The first shell bundle a foreign toplevel stands for.
pub open spec fn first_foreign_bundle(s: Seq<foreign_toplevel::ForeignToplevelEntry>) -> Option<Seq<char>>
    decreases s.len(),
{
    if s.len() == 0 {
        None
    } else if bundle_for_app_id(s[0].app_id@) is Some {
        bundle_for_app_id(s[0].app_id@)
    } else {
        first_foreign_bundle(s.drop_first())
    }
}

/// The menu sync as texts: `Some(Some(b))` activates `b`, `Some(None)`
/// resets to the shell's menus, `None` keeps them.
pub open spec fn app_menu_sync_of(
    active: Option<Option<Seq<char>>>,
    active_internal_app: Option<Seq<char>>,
    session_bundle: Option<Seq<char>>,
    foreign: Seq<foreign_toplevel::ForeignToplevelEntry>,
) -> Option<Option<Seq<char>>> {
    match active {
        Some(Some(app)) => Some(Some(
            match bundle_for_app_id(app) {
                Some(b) => b,
                None => app,
            },
        )),
        Some(None) => Some(None),
        None => if active_internal_app is Some && active_internal_app->0 != "com.slopos.finder"@ {
            None
        } else if session_bundle is Some {
            Some(session_bundle)
        } else {
            match first_foreign_bundle(foreign) {
                Some(b) => Some(Some(b)),
                None => None,
            }
        },
    }
}

/// The menu sync a result stands for.
pub open spec fn app_menu_sync_view(r: AppMenuSync) -> Option<Option<Seq<char>>> {
    match r {
        AppMenuSync::Activate(b) => Some(Some(b@)),
        AppMenuSync::ResetToShell => Some(None),
        AppMenuSync::Keep => None,
    }
}

/// Decide which application menus the global menu bar shows: those of the
/// compositor-focused client when its record names one (by its shell
/// bundle when it is one), the shell's own when the record names none;
/// without a record, an internal window other than the Finder keeps the
/// menus, otherwise the first session client's bundle, else the first
/// foreign toplevel that is a shell bundle.
pub fn app_menu_sync_decision(
    active: Option<Option<&str>>,
    active_internal_app: Option<&str>,
    session_bundle: Option<&str>,
    foreign: &foreign_toplevel::ForeignToplevelRegistry,
) -> (r: AppMenuSync)
    ensures
        app_menu_sync_view(r) == app_menu_sync_of(
            match active {
                Some(Some(a)) => Some(Some(a@)),
                Some(None) => Some(None),
                None => None,
            },
            opt_view(active_internal_app),
            opt_view(session_bundle),
            foreign@,
        ),
{
    match active {
        Some(Some(app)) => {
            return match bundle_id_for_foreign_app_id(app) {
                Some(b) => AppMenuSync::Activate(text::owned(b)),
                None => AppMenuSync::Activate(text::owned(app)),
            };
        },
        Some(None) => {
            return AppMenuSync::ResetToShell;
        },
        None => {},
    }
    if let Some(a) = active_internal_app {
        if !text::str_eq(a, "com.slopos.finder") {
            return AppMenuSync::Keep;
        }
    }
    if let Some(b) = session_bundle {
        return AppMenuSync::Activate(text::owned(b));
    }
    let entries = foreign.entries();
    let ghost s = foreign@;
    let mut i: usize = 0;
    assert(s.skip(0) =~= s);
    while i < entries.len()
        invariant
            i <= entries@.len(),
            entries@ == s,
            s == foreign@,
            active is None,
            session_bundle is None,
            !(opt_view(active_internal_app) is Some && opt_view(active_internal_app)->0
                != "com.slopos.finder"@),
            first_foreign_bundle(s) == first_foreign_bundle(s.skip(i as int)),
        decreases entries@.len() - i,
    {
        assert(s.skip(i as int)[0] == entries@[i as int]);
        assert(s.skip(i as int).drop_first() =~= s.skip(i + 1));
        if let Some(b) = bundle_id_for_foreign_app_id(entries[i].app_id.as_str()) {
            return AppMenuSync::Activate(text::owned(b));
        }
        i = i + 1;
    }
    assert(s.skip(i as int) =~= Seq::<foreign_toplevel::ForeignToplevelEntry>::empty());
    AppMenuSync::Keep
}

/// Uptime text: `{d}d {h}h` from a day on, `{h}h {m}m` from an hour on,
/// else `{m}m` (whole minutes, hours and days).
pub open spec fn uptime_text(secs: u64) -> Seq<char> {
    let minutes = secs / 60;
    let hours = minutes / 60;
    let days = hours / 24;
    if days > 0 {
        text::dec(days as nat) + "d "@ + text::dec((hours % 24) as nat) + "h"@
    } else if hours > 0 {
        text::dec(hours as nat) + "h "@ + text::dec((minutes % 60) as nat) + "m"@
    } else {
        text::dec(minutes as nat) + "m"@
    }
}

/// Format uptime seconds for the About window.
pub fn format_uptime(secs: u64) -> (r: String)
    ensures
        r@ == uptime_text(secs),
{
    let minutes = secs / 60;
    let hours = minutes / 60;
    let days = hours / 24;
    let mut v: Vec<char> = Vec::new();
    if days > 0 {
        text::push_decimal(&mut v, days);
        text::push_str_chars(&mut v, "d ");
        text::push_decimal(&mut v, hours % 24);
        text::push_str_chars(&mut v, "h");
    } else if hours > 0 {
        text::push_decimal(&mut v, hours);
        text::push_str_chars(&mut v, "h ");
        text::push_decimal(&mut v, minutes % 60);
        text::push_str_chars(&mut v, "m");
    } else {
        text::push_decimal(&mut v, minutes);
        text::push_str_chars(&mut v, "m");
    }
    assert(v@ =~= uptime_text(secs));
    text::chars_to_string(&v)
}

/// The word that a copy's name carries: ` copy`.
pub open spec fn copy_word() -> Seq<char> {
    seq![' ', 'c', 'o', 'p', 'y']
}

/// File stem and extension of a final path component, as `Path::file_stem`
/// and `Path::extension` split it: at its last `.`, unless it has none or
/// that dot is its first character (then the whole is the stem).
pub open spec fn stem_and_extension(file_name: Seq<char>) -> (Seq<char>, Option<Seq<char>>) {
    let d = text::rfind(file_name, seq!['.']);
    if d <= 0 {
        (file_name, None)
    } else {
        (file_name.take(d), Some(file_name.skip(d + 1)))
    }
}

/// Stem and extension of `name`, given the final component that the path
/// has (`None`: the whole name is the stem).
pub open spec fn name_parts(name: Seq<char>, file_name: Option<Seq<char>>) -> (
    Seq<char>,
    Option<Seq<char>>,
) {
    match file_name {
        Some(f) => stem_and_extension(f),
        None => (name, None),
    }
}

/// The counter after the last ` copy` of a stem, where the rest of the stem
/// is, trimmed, an unsigned 32-bit number.
pub open spec fn copy_counter(stem: Seq<char>) -> Option<u32> {
    let i = text::rfind(stem, copy_word());
    if i < 0 || stem.skip(i + 5).len() == 0 {
        None
    } else {
        text::parse_u32(text::trim(stem.skip(i + 5)))
    }
}

/// The stem of the suggested copy: ` copy` appended; a bare trailing
/// ` copy` becomes ` copy 2`; a numbered one gets the next number.
pub open spec fn renamed_stem(stem: Seq<char>) -> Seq<char> {
    let i = text::rfind(stem, copy_word());
    if i < 0 {
        stem + copy_word()
    } else if stem.skip(i + 5).len() == 0 {
        stem.take(i) + copy_word() + seq![' ', '2']
    } else {
        match text::parse_u32(text::trim(stem.skip(i + 5))) {
            Some(n) => stem.take(i) + copy_word() + seq![' '] + text::dec((n + 1) as nat),
            None => stem + copy_word(),
        }
    }
}

/// The suggested name for a copy of `name`, whose final component is
/// `file_name`: the stem renamed, the extension kept.
pub open spec fn rename_suggestion_text(name: Seq<char>, file_name: Option<Seq<char>>) -> Seq<
    char,
> {
    let (stem, ext) = name_parts(name, file_name);
    match ext {
        Some(e) => renamed_stem(stem) + seq!['.'] + e,
        None => renamed_stem(stem),
    }
}

fn name_parts_exec(name: &str, file_name: Option<&str>) -> (r: (Vec<char>, Option<Vec<char>>))
    ensures
        r.0@ == name_parts(name@, opt_view(file_name)).0,
        match r.1 {
            Some(e) => name_parts(name@, opt_view(file_name)).1 == Some(e@),
            None => name_parts(name@, opt_view(file_name)).1 is None,
        },
{
    match file_name {
        None => (text::str_chars(name), None),
        Some(f) => {
            let fv = text::str_chars(f);
            let dot: Vec<char> = vec!['.'];
            assert(dot@ =~= seq!['.']);
            match text::rfind_chars(&fv, &dot) {
                Some(d) => {
                    if d == 0 {
                        (fv, None)
                    } else {
                        let n = fv.len();
                        let stem = text::slice_chars(&fv, 0, d);
                        let ext = text::slice_chars(&fv, d + 1, n);
                        assert(stem@ =~= fv@.take(d as int));
                        assert(ext@ =~= fv@.skip(d + 1));
                        (stem, Some(ext))
                    }
                },
                None => (fv, None),
            }
        },
    }
}

fn find_copy_word(stem: &[char]) -> (r: Option<usize>)
    ensures
        match r {
            Some(i) => i as int == text::rfind(stem@, copy_word()) && i + 5 <= stem@.len(),
            None => text::rfind(stem@, copy_word()) < 0,
        },
{
    let word: Vec<char> = vec![' ', 'c', 'o', 'p', 'y'];
    assert(word@ =~= copy_word());
    text::rfind_chars(stem, &word)
}

fn push_copy_word(v: &mut Vec<char>)
    ensures
        final(v)@ == old(v)@ + copy_word(),
{
    v.push(' ');
    v.push('c');
    v.push('o');
    v.push('p');
    v.push('y');
    assert(v@ =~= old(v)@ + copy_word());
}

fn renamed_stem_exec(stem: &[char]) -> (r: Vec<char>)
    requires
        copy_counter(stem@) != Some(u32::MAX),
    ensures
        r@ == renamed_stem(stem@),
{
    let n = stem.len();
    match find_copy_word(stem) {
        None => {
            let mut v = text::slice_chars(stem, 0, n);
            push_copy_word(&mut v);
            assert(v@ =~= stem@ + copy_word());
            v
        },
        Some(i) => {
            let suffix = text::slice_chars(stem, i + 5, n);
            assert(suffix@ =~= stem@.skip(i + 5));
            if suffix.len() == 0 {
                let mut v = text::slice_chars(stem, 0, i);
                push_copy_word(&mut v);
                v.push(' ');
                v.push('2');
                assert(v@ =~= stem@.take(i as int) + copy_word() + seq![' ', '2']);
                v
            } else {
                let t = text::trim_chars(&suffix);
                match text::parse_u32_chars(&t) {
                    Some(k) => {
                        let next: u32 = k + 1;
                        let mut v = text::slice_chars(stem, 0, i);
                        push_copy_word(&mut v);
                        v.push(' ');
                        text::push_decimal(&mut v, next as u64);
                        assert(v@ =~= stem@.take(i as int) + copy_word() + seq![' '] + text::dec(
                            (k + 1) as nat,
                        ));
                        v
                    },
                    None => {
                        let mut v = text::slice_chars(stem, 0, n);
                        push_copy_word(&mut v);
                        assert(v@ =~= stem@ + copy_word());
                        v
                    },
                }
            }
        },
    }
}

/// Name suggested for a copy of the file `name`, whose final path component
/// is `file_name` (as `Path::file_name` gives it): ` copy` appended to the
/// stem, or the copy number after it raised by one, the extension kept.
pub fn rename_suggestion_for(name: &str, file_name: Option<&str>) -> (r: String)
    requires
        copy_counter(name_parts(name@, opt_view(file_name)).0) != Some(u32::MAX),
    ensures
        r@ == rename_suggestion_text(name@, opt_view(file_name)),
{
    let (stem, ext) = name_parts_exec(name, file_name);
    let mut v = renamed_stem_exec(&stem);
    match ext {
        Some(e) => {
            v.push('.');
            text::push_chars(&mut v, &e);
        },
        None => {},
    }
    text::chars_to_string(&v)
}

/// Name suggested when a file is copied by Rename: that of
/// `rename_suggestion_for` on the path's own final component (as
/// `Path::file_name` gives it). A stem already numbered with the largest
/// copy number has no successor and is left out.
pub fn derive_rename_suggestion(name: &str) -> (r: String)
    requires
        copy_counter(name_parts(name@, app_finder::path_file_name(name@)).0) != Some(u32::MAX),
    ensures
        r@ == rename_suggestion_text(name@, app_finder::path_file_name(name@)),
{
    let file_name = app_finder::file_name_of(name);
    let component: Option<&str> = match &file_name {
        Some(f) => Some(f.as_str()),
        None => None,
    };
    assert(opt_view(component) == app_finder::path_file_name(name@));
    rename_suggestion_for(name, component)
}

} // verus!
