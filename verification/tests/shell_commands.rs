use slopos_shell::notification_center::NotificationPriority;
use slopos_shell::session_actions::{confirmation_step, confirmation_title, ConfirmationStep, SessionAction};
use slopos_shell::shell_commands::{
    action_label, app_action_info_window, app_menu_command, capture_notification, menu_command,
    notice_window, AppMenuCommand, BundledApp, CaptureRequest, MenuCommand, ShellNotice, WindowAction,
};

#[test]
fn window_menu_commands_follow_window_owner() {
    assert_eq!(
        menu_command("shell.close_finder_window", true),
        MenuCommand::CompositorWindow(WindowAction::Close)
    );
    assert_eq!(
        menu_command("shell.close_finder_window", false),
        MenuCommand::ActiveShellWindow(WindowAction::Close)
    );
    assert_eq!(
        menu_command("shell.zoom_window", true),
        MenuCommand::CompositorWindow(WindowAction::ToggleZoom)
    );
    assert_eq!(
        menu_command("shell.toggle_fullscreen", false),
        MenuCommand::ActiveShellWindow(WindowAction::ToggleFullscreen)
    );
}

#[test]
fn menu_commands_launch_bundled_apps() {
    assert_eq!(menu_command("shell.open_finder", false), MenuCommand::Launch(BundledApp::Finder));
    assert_eq!(menu_command("shell.settings", false), MenuCommand::Launch(BundledApp::Settings));
    assert_eq!(
        menu_command("shell.software_catalog", true),
        MenuCommand::Launch(BundledApp::SoftwareCatalog)
    );
    assert_eq!(BundledApp::Finder.bundle_id(), "com.slopos.finder");
    assert_eq!(BundledApp::Settings.bundle_id(), "com.slopos.settings");
    assert_eq!(BundledApp::SoftwareCatalog.bundle_id(), "com.slopos.appstore");
}

#[test]
fn menu_commands_for_session_aliases() {
    assert_eq!(menu_command("shell.lock", false), MenuCommand::Session(SessionAction::Lock));
    assert_eq!(menu_command("shell.logout", false), MenuCommand::Session(SessionAction::Logout));
    assert_eq!(menu_command("shell.sleep", true), MenuCommand::Session(SessionAction::Suspend));
    assert_eq!(menu_command("shell.restart", false), MenuCommand::Session(SessionAction::Reboot));
    assert_eq!(menu_command("shell.poweroff", false), MenuCommand::Session(SessionAction::PowerOff));
}

#[test]
fn menu_commands_for_notices_and_capture() {
    for edit in ["shell.undo", "shell.redo", "shell.cut", "shell.copy", "shell.paste", "shell.select_all"] {
        assert_eq!(menu_command(edit, false), MenuCommand::Notice(ShellNotice::Edit));
    }
    assert_eq!(menu_command("shell.help_search", false), MenuCommand::Notice(ShellNotice::Help));
    assert_eq!(menu_command("shell.recent_items", false), MenuCommand::Notice(ShellNotice::RecentItems));
    assert_eq!(
        menu_command("shell.portal_screenshot", false),
        MenuCommand::Capture(CaptureRequest::PortalScreenshot)
    );
    assert_eq!(
        menu_command("shell.stop_recording", false),
        MenuCommand::Capture(CaptureRequest::StopRecording)
    );
}

#[test]
fn menu_commands_for_workspaces() {
    assert_eq!(menu_command("workspace.switch.3", false), MenuCommand::SwitchWorkspace(3));
    assert_eq!(menu_command("workspace.switch.+0", false), MenuCommand::SwitchWorkspace(0));
    assert_eq!(menu_command("workspace.switch.x", false), MenuCommand::Ignored);
    assert_eq!(menu_command("workspace.switch.", false), MenuCommand::Ignored);
    assert_eq!(menu_command("workspace.next", false), MenuCommand::NextWorkspace);
    assert_eq!(menu_command("workspace.previous", true), MenuCommand::PreviousWorkspace);
}

#[test]
fn menu_commands_for_finder_and_other_actions() {
    assert_eq!(menu_command("finder.rename", false), MenuCommand::Rename);
    assert_eq!(menu_command("finder.move_to_trash", false), MenuCommand::MoveToTrash);
    assert_eq!(menu_command("shell.quit", false), MenuCommand::Quit);
    assert_eq!(menu_command("com.example.notes.new", false), MenuCommand::ForActiveApp);
    assert_eq!(menu_command("", true), MenuCommand::ForActiveApp);
}

#[test]
fn app_menu_actions_need_the_active_app_namespace() {
    assert_eq!(app_menu_command("com.example.notes.new", None, true), AppMenuCommand::NotForActiveApp);
    assert_eq!(
        app_menu_command("com.example.other.new", Some("com.example.notes"), true),
        AppMenuCommand::NotForActiveApp
    );
    assert_eq!(
        app_menu_command("com.example.notesnew", Some("com.example.notes"), true),
        AppMenuCommand::NotForActiveApp
    );
    assert_eq!(
        app_menu_command("com.example.notes.new", Some("com.example.notes"), true),
        AppMenuCommand::SendToApp
    );
    assert_eq!(
        app_menu_command("com.example.notes.new", Some("com.example.notes"), false),
        AppMenuCommand::ShowActionInfo
    );
}

#[test]
fn app_window_menu_entries_stay_window_operations() {
    assert_eq!(
        app_menu_command("com.example.notes.window.minimize", Some("com.example.notes"), true),
        AppMenuCommand::CompositorWindow(WindowAction::Minimize)
    );
    assert_eq!(
        app_menu_command("com.example.notes.window.zoom", Some("com.example.notes"), false),
        AppMenuCommand::ActiveShellWindow(WindowAction::ToggleZoom)
    );
    assert_eq!(
        app_menu_command("com.example.notes.window.fullscreen", Some("com.example.notes"), true),
        AppMenuCommand::CompositorWindow(WindowAction::ToggleFullscreen)
    );
}

#[test]
fn app_action_labels_fall_back_to_last_segment() {
    assert_eq!(action_label("com.example.notes.export_as_pdf", None), "export as pdf");
    assert_eq!(action_label("plain_action", None), "plain action");
    assert_eq!(action_label("com.example.notes.new", Some("New Note")), "New Note");
    assert_eq!(action_label("trailing.", None), "");
}

#[test]
fn app_action_info_window_lines() {
    let w = app_action_info_window("com.example.notes", "com.example.notes.export_pdf", None);
    assert_eq!(w.title, "Application Menu Action");
    assert_eq!(
        w.lines,
        vec![
            "Application: com.example.notes".to_string(),
            "Action: export pdf".to_string(),
            "Identifier: com.example.notes.export_pdf".to_string(),
            "Cross-process dispatch is available only in a live SLOPOS session.".to_string(),
        ]
    );
}

#[test]
fn notice_windows_have_titles_and_lines() {
    let w = notice_window(ShellNotice::Help);
    assert_eq!(w.title, "Help");
    assert_eq!(w.lines.len(), 2);
    assert_eq!(w.lines[0], "Help search is not indexed yet.");
    let e = notice_window(ShellNotice::Edit);
    assert_eq!(e.title, "Edit");
    assert_eq!(e.lines, vec!["This edit command is only available inside document-aware apps.".to_string()]);
    assert_eq!(notice_window(ShellNotice::RecentItems).lines.len(), 2);
}

#[test]
fn capture_notifications_report_path_or_error() {
    let n = capture_notification(CaptureRequest::Screenshot, Ok("/tmp/shot.png"));
    assert_eq!(n.title, "Screenshot Saved");
    assert_eq!(n.body, "Saved to /tmp/shot.png");
    assert_eq!(n.priority, NotificationPriority::Normal);
    let n = capture_notification(CaptureRequest::StartRecording, Ok("/tmp/rec.mp4"));
    assert_eq!(n.title, "Screen Recording");
    assert_eq!(n.body, "Recording to /tmp/rec.mp4");
    let n = capture_notification(CaptureRequest::StopRecording, Err("no recording in progress"));
    assert_eq!(n.title, "Stop Recording Failed");
    assert_eq!(n.body, "no recording in progress");
    assert_eq!(n.priority, NotificationPriority::High);
    let n = capture_notification(CaptureRequest::PortalScreenshot, Err("boom"));
    assert_eq!(n.title, "Screenshot Failed");
}

#[test]
fn destructive_session_actions_run_on_second_activation() {
    let (pending, step) = confirmation_step(None, SessionAction::PowerOff);
    assert_eq!(step, ConfirmationStep::AskToConfirm);
    assert_eq!(pending, Some(SessionAction::PowerOff));
    let (pending, step) = confirmation_step(pending, SessionAction::PowerOff);
    assert_eq!(step, ConfirmationStep::Run);
    assert_eq!(pending, None);
}

#[test]
fn another_action_resets_pending_confirmation() {
    let (pending, _) = confirmation_step(None, SessionAction::Reboot);
    let (pending, step) = confirmation_step(pending, SessionAction::Logout);
    assert_eq!(step, ConfirmationStep::AskToConfirm);
    assert_eq!(pending, Some(SessionAction::Logout));
    let (pending, step) = confirmation_step(pending, SessionAction::Lock);
    assert_eq!(step, ConfirmationStep::Run);
    assert_eq!(pending, None);
    let (_, step) = confirmation_step(Some(SessionAction::Suspend), SessionAction::Suspend);
    assert_eq!(step, ConfirmationStep::Run);
}

#[test]
fn confirmation_titles() {
    assert_eq!(confirmation_title(SessionAction::Logout), "Log Out");
    assert_eq!(confirmation_title(SessionAction::Reboot), "Restart");
    assert_eq!(confirmation_title(SessionAction::PowerOff), "Shut Down");
    assert_eq!(confirmation_title(SessionAction::Lock), "Session Action");
}
