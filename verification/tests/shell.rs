use slopos_shell::idle_policy::IdleConfig;
use slopos_shell::chrome_protocol::session_output_size_from;
use slopos_shell::foreign_toplevel::{ForeignToplevelEntry, ForeignToplevelRegistry};
use slopos_shell::{
    app_menu_sync_decision, AppMenuSync, active_app_id_from_record, bundle_id_for_foreign_app_id, desktop_item_action,
    next_focus_position, DesktopItemAction,
    active_window_count, default_desktop_icons, workspace_active_summary, dock_activation_for_existing_client, foreign_toplevel_matches_bundle, format_uptime,
    folder_icon_activation, lock_password_from, verify_lock_password, window_button_action,
    workspace_switch_action, derive_rename_suggestion, rename_suggestion_for, lock_screen_response, LockScreenInput, LockScreenResponse, DockActivation, IconActivation, WindowButtonAction,
};

#[test]
fn lock_accepts_correct_password() {
    assert!(verify_lock_password("test_password", "test_password"));
    assert!(verify_lock_password("s3cret!", "s3cret!"));
}

#[test]
fn lock_rejects_wrong_password() {
    assert!(!verify_lock_password("wrong", "correct_password"));
    assert!(!verify_lock_password("", "correct_password"));
    assert!(!verify_lock_password("correct_password", ""));
    assert!(!verify_lock_password(
        "Correct_password",
        "correct_password"
    ));
}

#[test]
fn empty_password_never_unlocks_even_when_expected_is_empty() {
    assert!(!verify_lock_password("", ""));
}

#[test]
fn idle_config_parses_from_settings_conf_keys() {
    let cfg = IdleConfig::parse_from_conf(
        "# comment\nidle_warn_secs=15\nidle_lock_secs=45\nidle_suspend_secs=90\nlock_on_suspend=false\n",
    );
    assert_eq!(cfg.warn_after_secs, 15);
    assert_eq!(cfg.lock_after_secs, 45);
    assert_eq!(cfg.suspend_after_secs, 90);
    assert!(!cfg.lock_on_suspend);
    assert_eq!(IdleConfig::parse_from_conf(""), IdleConfig::default());
}

#[test]
fn foreign_toplevel_matching_accepts_only_known_or_exact_bundle_ids() {
    assert!(foreign_toplevel_matches_bundle(
        "com.slopos.settings",
        "com.slopos.settings"
    ));
    assert!(!foreign_toplevel_matches_bundle(
        "SETTINGS",
        "com.slopos.settings"
    ));
    assert!(!foreign_toplevel_matches_bundle(
        "com.slopos.settings-malicious",
        "com.slopos.settings"
    ));
    assert!(!foreign_toplevel_matches_bundle(
        "/tmp/settings",
        "com.slopos.settings"
    ));
    assert_eq!(
        dock_activation_for_existing_client(true),
        DockActivation::ActivateExisting
    );
    assert_eq!(
        dock_activation_for_existing_client(false),
        DockActivation::LaunchNew
    );
}

#[test]
fn uptime_formats() {
    assert_eq!(format_uptime(59), "0m");
    assert_eq!(format_uptime(83 * 60), "1h 23m");
    assert_eq!(format_uptime((2 * 24 + 4) * 3600 + 5), "2d 4h");
}

#[test]
fn lock_password_prefers_trimmed_environment_value() {
    assert_eq!(
        lock_password_from(Some("  hunter2 \n"), Some("lock_password=other\n")),
        Some("hunter2".to_string())
    );
}

#[test]
fn lock_password_falls_back_to_first_non_empty_settings_line() {
    let conf = "theme=dark\nlock_password=   \nlock_password= s3cret \nlock_password=later\n";
    assert_eq!(lock_password_from(Some("   "), Some(conf)), Some("s3cret".to_string()));
    assert_eq!(lock_password_from(None, Some(conf)), Some("s3cret".to_string()));
}

#[test]
fn lock_password_absent_everywhere_is_none() {
    assert_eq!(lock_password_from(None, None), None);
    assert_eq!(lock_password_from(Some(""), Some("theme=dark\n lock_password=x\n")), None);
}

#[test]
fn session_output_size_defaults_and_clamps() {
    assert_eq!(session_output_size_from(None, None), (1024, 768));
    assert_eq!(session_output_size_from(Some("1920"), Some("1080")), (1920, 1080));
    assert_eq!(session_output_size_from(Some("abc"), Some(" 900")), (1024, 768));
    assert_eq!(session_output_size_from(Some("-5"), Some("0")), (1, 1));
    assert_eq!(session_output_size_from(Some("+800"), Some("99999999999")), (800, 768));
}

#[test]
fn window_buttons_map_to_actions() {
    assert_eq!(window_button_action("Force Quit", "Cancel"), Some(WindowButtonAction::Close));
    assert_eq!(window_button_action("About SLOPOS-I", "OK"), Some(WindowButtonAction::Close));
    assert_eq!(
        window_button_action("Force Quit", "Force Quit"),
        Some(WindowButtonAction::ForceQuit)
    );
    assert_eq!(window_button_action("About SLOPOS-I", "Cancel"), None);
    assert_eq!(window_button_action("Finder", "OK"), None);
}

#[test]
fn folder_icons_open_directories_and_files() {
    assert_eq!(folder_icon_activation(Some("folder"), true, true), Some(IconActivation::OpenFolder));
    assert_eq!(folder_icon_activation(Some("folder"), false, true), None);
    assert_eq!(folder_icon_activation(Some("text"), false, true), Some(IconActivation::OpenFile));
    assert_eq!(folder_icon_activation(None, false, true), Some(IconActivation::OpenFile));
    assert_eq!(folder_icon_activation(None, true, true), None);
    assert_eq!(folder_icon_activation(None, false, false), None);
}

#[test]
fn workspace_grid_press_switches_only_from_workspace_window() {
    assert_eq!(workspace_switch_action("Workspace", 3), Some("workspace.switch.3".to_string()));
    assert_eq!(workspace_switch_action("Finder", 3), None);
}

#[test]
fn workspace_summary_line_counts_active_windows() {
    let counts = [2usize, 5, 0];
    assert_eq!(active_window_count(&counts, 1), 5);
    assert_eq!(active_window_count(&counts, 7), 0);
    assert_eq!(workspace_active_summary("Desktop 2", 5), "Active: Desktop 2 (5 windows)");
}

#[test]
fn desktop_starts_with_fixed_icons() {
    let icons = default_desktop_icons();
    let labels: Vec<&str> = icons.iter().map(|(l, _)| l.as_str()).collect();
    assert_eq!(labels, vec!["Hard Disk", "Home", "Applications", "Trash"]);
    assert_eq!(icons[3].1, "trash");
}

#[test]
fn lock_password_env_is_source_for_expected_secret() {
    let expected = lock_password_from(Some("env_secret"), None).expect("env secret");
    assert!(verify_lock_password("env_secret", &expected));
    assert!(!verify_lock_password("other", &expected));
}

#[test]
fn compositor_app_ids_map_to_shell_bundles() {
    assert_eq!(bundle_id_for_foreign_app_id(" Finder "), Some("com.slopos.finder"));
    assert_eq!(bundle_id_for_foreign_app_id("COM.SLOPOS.TEXTEDIT"), Some("com.slopos.textedit"));
    assert_eq!(bundle_id_for_foreign_app_id("appstore"), Some("com.slopos.appstore"));
    assert_eq!(bundle_id_for_foreign_app_id("firefox"), None);
}

#[test]
fn tab_focus_cycles_through_the_space() {
    assert_eq!(next_focus_position(0, true, None), None);
    assert_eq!(next_focus_position(3, false, None), Some(0));
    assert_eq!(next_focus_position(3, true, Some(1)), Some(2));
    assert_eq!(next_focus_position(3, true, Some(2)), Some(0));
    // An active window on another Space: the second window of this one.
    assert_eq!(next_focus_position(3, true, None), Some(1));
}

#[test]
fn active_toplevel_record_names_the_focused_client() {
    assert_eq!(
        active_app_id_from_record("pid=4\napp_id= org.example.Editor \n"),
        Some(Some("org.example.Editor".to_string()))
    );
    assert_eq!(active_app_id_from_record("pid=4\n"), Some(None));
    assert_eq!(active_app_id_from_record("app_id=\napp_id=later\n"), Some(None));
    assert_eq!(active_app_id_from_record("app_id=bad\u{7}id\n"), None);
}

#[test]
fn desktop_icons_launch_or_open() {
    let ids = vec!["com.slopos.textedit".to_string()];
    assert!(matches!(
        desktop_item_action("TextEdit", Some("com.slopos.textedit"), &ids),
        DesktopItemAction::LaunchBundle(b) if b == "com.slopos.textedit"
    ));
    assert!(matches!(desktop_item_action("Applications", Some("applications"), &ids), DesktopItemAction::LaunchFinder));
    assert!(matches!(desktop_item_action("Home", Some("home"), &ids), DesktopItemAction::OpenHome));
    assert!(matches!(desktop_item_action("Hard Disk", Some("drive"), &ids), DesktopItemAction::OpenHardDisk));
    assert!(matches!(desktop_item_action("Trash", None, &ids), DesktopItemAction::OpenTrash));
    assert!(matches!(desktop_item_action("Other", Some("x"), &ids), DesktopItemAction::Nothing));
}

#[test]
fn global_menu_follows_the_focused_client() {
    let mut reg = ForeignToplevelRegistry::new();
    reg.add(ForeignToplevelEntry::new("x", "Browser", "firefox", None));
    reg.add(ForeignToplevelEntry::new("y", "Editor", "TextEdit", None));
    assert!(matches!(
        app_menu_sync_decision(Some(Some("finder")), None, None, &reg),
        AppMenuSync::Activate(b) if b == "com.slopos.finder"
    ));
    assert!(matches!(
        app_menu_sync_decision(Some(Some("org.example.App")), None, None, &reg),
        AppMenuSync::Activate(b) if b == "org.example.App"
    ));
    assert!(matches!(app_menu_sync_decision(Some(None), None, None, &reg), AppMenuSync::ResetToShell));
    assert!(matches!(
        app_menu_sync_decision(None, Some("com.slopos.settings"), Some("s"), &reg),
        AppMenuSync::Keep
    ));
    assert!(matches!(
        app_menu_sync_decision(None, Some("com.slopos.finder"), Some("com.slopos.terminal"), &reg),
        AppMenuSync::Activate(b) if b == "com.slopos.terminal"
    ));
    assert!(matches!(
        app_menu_sync_decision(None, None, None, &reg),
        AppMenuSync::Activate(b) if b == "com.slopos.textedit"
    ));
    assert!(matches!(
        app_menu_sync_decision(None, None, None, &ForeignToplevelRegistry::new()),
        AppMenuSync::Keep
    ));
}

#[test]
fn rename_suggestion_appends_copy_before_extension() {
    assert_eq!(derive_rename_suggestion("notes.txt"), "notes copy.txt");
    assert_eq!(derive_rename_suggestion("archive.tar.gz"), "archive.tar copy.gz");
    assert_eq!(derive_rename_suggestion(".bashrc"), ".bashrc copy");
    assert_eq!(derive_rename_suggestion("README"), "README copy");
}

#[test]
fn rename_suggestion_counts_copies() {
    assert_eq!(derive_rename_suggestion("notes copy.txt"), "notes copy 2.txt");
    assert_eq!(derive_rename_suggestion("notes copy 2.txt"), "notes copy 3.txt");
    assert_eq!(derive_rename_suggestion("notes copy  7 .txt"), "notes copy 8.txt");
    assert_eq!(derive_rename_suggestion("notes copy x.txt"), "notes copy x copy.txt");
}

#[test]
fn rename_suggestion_uses_final_component_only() {
    assert_eq!(derive_rename_suggestion("docs/plan.md"), "plan copy.md");
    assert_eq!(derive_rename_suggestion("/"), "/ copy");
}

#[test]
fn rename_suggestion_reaches_largest_copy_number() {
    assert_eq!(derive_rename_suggestion("notes copy 4294967294"), "notes copy 4294967295");
}

#[test]
fn rename_suggestion_for_given_component() {
    assert_eq!(rename_suggestion_for("a.b", Some("a.b")), "a copy.b");
    assert_eq!(rename_suggestion_for("x", None), "x copy");
    assert_eq!(rename_suggestion_for("photo.", Some("photo.")), "photo copy.");
}

#[test]
fn lock_screen_enter_unlocks_only_on_match() {
    assert_eq!(lock_screen_response(LockScreenInput::Enter, "hunter2", Some("hunter2")), LockScreenResponse::Unlock);
    assert_eq!(lock_screen_response(LockScreenInput::Enter, "hunter", Some("hunter2")), LockScreenResponse::Rejected);
    assert_eq!(lock_screen_response(LockScreenInput::Enter, "", Some("")), LockScreenResponse::Rejected);
    assert_eq!(lock_screen_response(LockScreenInput::Enter, "x", None), LockScreenResponse::NoPassword);
}

#[test]
fn lock_screen_other_keys_never_unlock() {
    assert_eq!(lock_screen_response(LockScreenInput::Escape, "hunter2", Some("hunter2")), LockScreenResponse::Cleared);
    assert_eq!(lock_screen_response(LockScreenInput::Edit, "hunter2", Some("hunter2")), LockScreenResponse::Edit);
    assert_eq!(lock_screen_response(LockScreenInput::Other, "hunter2", Some("hunter2")), LockScreenResponse::Swallowed);
}

fn reference_rename(name: &str) -> String {
    let path = std::path::Path::new(name);
    let stem = path.file_stem().and_then(|s| s.to_str()).unwrap_or(name);
    let ext = path.extension().and_then(|s| s.to_str());
    let new_stem = if let Some(idx) = stem.rfind(" copy") {
        let suffix = &stem[idx + 5..];
        if suffix.is_empty() {
            format!("{} copy 2", &stem[..idx])
        } else if let Ok(n) = suffix.trim().parse::<u32>() {
            format!("{} copy {}", &stem[..idx], n + 1)
        } else {
            format!("{stem} copy")
        }
    } else {
        format!("{stem} copy")
    };
    match ext {
        Some(ext) => format!("{new_stem}.{ext}"),
        None => new_stem,
    }
}

#[test]
fn rename_suggestion_matches_std_path_components() {
    for p in [
        "a/b.txt", "a/./", "./x", "..", "a/..", "/", "", ".", "foo.txt/.", "foo.txt/.//",
        "/usr/bin/", "a//b", ".hidden", "x/.hidden.tar.gz", "dir/notes copy 3.md", "a/.b/c.",
    ] {
        assert_eq!(derive_rename_suggestion(p), reference_rename(p), "path {p:?}");
    }
}
