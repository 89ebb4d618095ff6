use std::sync::Arc;

use slopos_shell::app_finder::DesktopApp;
use slopos_shell::launcher::{
    accessible_row_name, adaptive_window_size, is_browser_command, launch_argv,
    matching_status_text, next_selection_index, role_icon_file, AppIndexState, AppIndexUpdate,
};

fn app(name: &str, comment: &str, argv: &[&str], terminal: bool) -> DesktopApp {
    DesktopApp {
        id: format!("{name}.desktop"),
        name: name.to_string(),
        argv: argv.iter().map(|s| s.to_string()).collect(),
        icon: String::new(),
        comment: comment.to_string(),
        terminal,
    }
}

#[test]
fn launcher_keeps_compact_canonical_size_and_scales_large_surfaces() {
    assert_eq!(adaptive_window_size(1280, 800), (704, 450));
    assert_eq!(adaptive_window_size(1024, 768), (563, 450));
    assert_eq!(adaptive_window_size(1920, 1080), (920, 594));
    assert_eq!(adaptive_window_size(3840, 2160), (920, 760));
}

#[test]
fn search_recognizes_upstream_browser_commands_for_wrapper_routing() {
    assert!(is_browser_command("firefox"));
    assert!(is_browser_command("/usr/bin/firefox-esr"));
    assert!(is_browser_command("/usr/local/bin/chromium"));
    assert!(is_browser_command("google-chrome"));
    assert!(is_browser_command("/opt/brave.com/brave/brave-browser"));
    assert!(!is_browser_command("thunar"));
    assert!(!is_browser_command("xfce4-terminal"));
}

#[test]
fn update_index_ignores_stale_or_out_of_order_sequences() {
    let mut state = AppIndexState::default();
    let app1 = DesktopApp {
        id: "app1.desktop".to_string(),
        name: "App One".to_string(),
        argv: vec!["app1".to_string()],
        icon: String::new(),
        comment: String::new(),
        terminal: false,
    };
    let app2 = DesktopApp {
        id: "app2.desktop".to_string(),
        name: "App Two".to_string(),
        argv: vec!["app2".to_string()],
        icon: String::new(),
        comment: String::new(),
        terminal: false,
    };
    let applied2 = state.update(AppIndexUpdate {
        seq: 2,
        apps: Arc::new(vec![app2.clone()]),
    });
    assert!(applied2);
    assert_eq!(state.apps.len(), 1);
    assert_eq!(state.apps[0].name, "App Two");
    let applied1 = state.update(AppIndexUpdate {
        seq: 1,
        apps: Arc::new(vec![app1.clone()]),
    });
    assert!(!applied1);
    assert_eq!(state.apps.len(), 1);
    assert_eq!(state.apps[0].name, "App Two");
    let applied3 = state.update(AppIndexUpdate {
        seq: 3,
        apps: Arc::new(vec![app1.clone(), app2.clone()]),
    });
    assert!(applied3);
    assert_eq!(state.apps.len(), 2);
}

#[test]
fn row_and_status_texts() {
    assert_eq!(accessible_row_name(&app("Files", "", &["pcmanfm"], false)), "Files");
    assert_eq!(
        accessible_row_name(&app("Files", "Browse", &["pcmanfm"], false)),
        "Files — Browse"
    );
    assert_eq!(matching_status_text(3), "3 matching applications");
}

#[test]
fn launch_commands() {
    let vim = app("Vim", "", &["vim", "-p"], true);
    assert_eq!(
        launch_argv(&vim, None, Some("/usr/bin/xterm"), None).unwrap(),
        vec!["/usr/bin/xterm", "-e", "vim", "-p"]
    );
    assert_eq!(launch_argv(&vim, None, None, None).unwrap(), vec!["vim", "-p"]);
    let ff = app("Firefox", "", &["/usr/bin/firefox", "--new-window"], false);
    assert_eq!(
        launch_argv(&ff, None, None, Some("/opt/start-slopos-browser")).unwrap(),
        vec!["/opt/start-slopos-browser", "--new-window"]
    );
    assert!(launch_argv(&app("Empty", "", &[], false), None, None, None).is_none());
}

#[test]
fn role_icons_follow_the_first_matching_role() {
    assert_eq!(role_icon_file(&app("Files", "", &["/usr/bin/pcmanfm"], false)), Some("folder.svg"));
    assert_eq!(role_icon_file(&app("XTerm", "", &["/usr/bin/xterm"], false)), Some("terminal.svg"));
    assert_eq!(role_icon_file(&app("Mousepad", "", &["mousepad"], false)), Some("textedit.svg"));
    assert_eq!(role_icon_file(&app("Firefox", "", &["firefox"], false)), Some("browser.svg"));
    assert_eq!(role_icon_file(&app("DOOM", "", &["chocolate-doom"], false)), Some("game.svg"));
    assert_eq!(role_icon_file(&app("Control Center", "", &["cc"], false)), Some("settings.svg"));
    assert_eq!(role_icon_file(&app("Catalogue", "", &["slopos-catalogue"], false)), Some("software.svg"));
    // "Profile" mentions "file": the files role comes first.
    assert_eq!(role_icon_file(&app("Profile", "", &["p"], false)), Some("folder.svg"));
    assert_eq!(role_icon_file(&app("Calculator", "", &["calc"], false)), None);
    assert_eq!(role_icon_file(&app("Empty", "", &[], false)), None);
}

#[test]
fn selection_moves_within_the_list() {
    assert_eq!(next_selection_index(None, 0, 1), None);
    assert_eq!(next_selection_index(None, 3, 1), Some(1));
    assert_eq!(next_selection_index(Some(2), 3, 1), Some(2));
    assert_eq!(next_selection_index(Some(0), 3, -1), Some(0));
    assert_eq!(next_selection_index(Some(2), 3, -1), Some(1));
}
