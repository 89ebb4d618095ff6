use slopos_shell::dock::{
    current_dock_alignment, current_dock_position, default_pinned_items, dock_dodge_enabled,
    dock_icon_candidates, dock_visibility_at_pointer_edge, dock_visibility_for_window_state,
    dock_window_geometry, DockVisibilityChange,
    pin_application, unpin_application, DockAlignment, DockPosition, PinnedItem,
};

fn item(id: &str) -> PinnedItem {
    PinnedItem {
        id: id.to_string(),
        name: id.to_string(),
        icon: String::new(),
        fallback_icon: String::new(),
        command: id.to_string(),
        args: vec![],
    }
}

#[test]
fn default_pins_in_dock_order() {
    let items = default_pinned_items();
    let ids: Vec<&str> = items.iter().map(|i| i.id.as_str()).collect();
    assert_eq!(
        ids,
        ["pcmanfm", "terminal", "textedit", "browser", "games", "catalogue", "settings"]
    );
    assert_eq!(items[1].command, "xfce4-terminal");
    assert_eq!(items[3].fallback_icon, "web-browser-symbolic");
    assert!(items.iter().all(|i| i.args.is_empty()));
}

#[test]
fn pin_and_unpin() {
    let mut items = vec![item("a"), item("b")];
    assert!(pin_application(&mut items, item("c")));
    assert!(!pin_application(&mut items, item("a")));
    assert_eq!(items.len(), 3);
    unpin_application(&mut items, "c");
    let ids: Vec<&str> = items.iter().map(|i| i.id.as_str()).collect();
    assert_eq!(ids, ["a", "b"]);
    unpin_application(&mut items, "zzz");
    assert_eq!(items.len(), 2);
}

#[test]
fn position_and_alignment_settings() {
    assert_eq!(current_dock_position(Some(" LEFT\n"), None), DockPosition::Left);
    assert_eq!(current_dock_position(Some("diagonal"), Some("right")), DockPosition::Right);
    assert_eq!(current_dock_position(Some("bottom"), Some("right")), DockPosition::Bottom);
    assert_eq!(current_dock_position(None, Some("bottom")), DockPosition::Bottom);
    assert_eq!(current_dock_position(None, None), DockPosition::Bottom);
    assert_eq!(current_dock_alignment(Some("Top"), None), DockAlignment::Start);
    assert_eq!(current_dock_alignment(Some("middle"), Some("end")), DockAlignment::End);
    assert_eq!(current_dock_alignment(None, Some("nope")), DockAlignment::Center);
    assert!(dock_dodge_enabled(Some(" YES\n")));
    assert!(dock_dodge_enabled(Some("1")));
    assert!(!dock_dodge_enabled(Some("0")));
    assert!(!dock_dodge_enabled(None));
}

#[test]
fn dock_icon_candidates_put_share_dir_first() {
    assert_eq!(
        dock_icon_candidates(Some("/opt/share"), "folder.svg"),
        vec![
            "/opt/share/themes/platinum/icons/folder.svg",
            "/opt/share/slopos-i/themes/platinum/icons/folder.svg",
            "themes/platinum/icons/folder.svg",
            "/usr/local/share/slopos-i/themes/platinum/icons/folder.svg",
            "/usr/share/slopos-i/themes/platinum/icons/folder.svg",
        ]
    );
    assert_eq!(dock_icon_candidates(None, "x.svg").len(), 3);
}

#[test]
fn dock_geometry_follows_edge_and_alignment() {
    assert_eq!(
        dock_window_geometry(DockPosition::Bottom, DockAlignment::Center, 1280, 800, 0, 0, 10),
        (380, 740, 520, 54)
    );
    assert_eq!(
        dock_window_geometry(DockPosition::Bottom, DockAlignment::End, 1280, 800, 100, 50, 10),
        (100 + 1280 - 520 - 12, 50 + 740, 520, 54)
    );
    assert_eq!(
        dock_window_geometry(DockPosition::Left, DockAlignment::Start, 1280, 800, 0, 0, 10),
        (6, 32, 54, 520)
    );
    assert_eq!(
        dock_window_geometry(DockPosition::Right, DockAlignment::End, 1280, 800, 0, 0, 10),
        (1220, 268, 54, 520)
    );
    // A long dock is capped to the screen.
    assert_eq!(
        dock_window_geometry(DockPosition::Bottom, DockAlignment::Start, 400, 300, 0, 0, 40),
        (12, 240, 376, 54)
    );
    // A very short screen keeps the dock 28 pixels from the top.
    assert_eq!(
        dock_window_geometry(DockPosition::Bottom, DockAlignment::Start, 400, 50, 0, 0, 1),
        (12, 28, 106, 54)
    );
}

#[test]
fn dock_hides_under_fullscreen_and_dodges_maximized() {
    assert_eq!(dock_visibility_for_window_state(true, false, false, true), DockVisibilityChange::Hide);
    assert_eq!(dock_visibility_for_window_state(true, false, false, false), DockVisibilityChange::NoChange);
    assert_eq!(dock_visibility_for_window_state(false, true, true, true), DockVisibilityChange::Hide);
    assert_eq!(dock_visibility_for_window_state(false, true, false, false), DockVisibilityChange::Show);
    assert_eq!(dock_visibility_for_window_state(false, false, true, true), DockVisibilityChange::NoChange);

    assert_eq!(dock_visibility_at_pointer_edge(true, true, true, false, true), DockVisibilityChange::NoChange);
    assert_eq!(dock_visibility_at_pointer_edge(false, true, false, false, true), DockVisibilityChange::NoChange);
    assert_eq!(dock_visibility_at_pointer_edge(false, true, true, false, true), DockVisibilityChange::Reveal);
    assert_eq!(dock_visibility_at_pointer_edge(false, true, true, true, false), DockVisibilityChange::Hide);
    assert_eq!(dock_visibility_at_pointer_edge(false, true, true, true, true), DockVisibilityChange::NoChange);
}
