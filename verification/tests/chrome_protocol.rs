use slopos_shell::chrome_protocol::{
    chrome_focus_order, next_chrome_focus, should_paint_kit_chrome, ChromeFocusTarget, ChromeRole,
    ChromeSession,
};

#[test]
fn should_paint_kit_chrome_off_when_layer_shell_bound() {
    assert!(should_paint_kit_chrome(false));
    assert!(!should_paint_kit_chrome(true));
}

#[test]
fn chrome_focus_cycles() {
    assert_eq!(
        next_chrome_focus(ChromeFocusTarget::MenuBar),
        ChromeFocusTarget::DesktopIcons
    );
    assert_eq!(
        next_chrome_focus(ChromeFocusTarget::Dock),
        ChromeFocusTarget::MenuBar
    );
    assert_eq!(chrome_focus_order().len(), 4);
}

#[test]
fn bootstrap_default_creates_mapped_menu_and_dock() {
    let session = ChromeSession::bootstrap_default(1280, 800, 24, 64);
    assert_eq!(session.surfaces().len(), 2);
    assert!(session.is_protocol_chrome(ChromeRole::MenuBar));
    assert!(session.is_protocol_chrome(ChromeRole::Dock));
    assert!(!session.is_protocol_chrome(ChromeRole::NotificationOverlay));

    let menu = session
        .surfaces()
        .iter()
        .find(|s| s.role == ChromeRole::MenuBar)
        .expect("menu");
    assert!(menu.mapped);
    assert_eq!(menu.layer, "top");
    assert_eq!(menu.exclusive_zone, 24);
    assert_eq!(menu.width, 1280);
    assert_eq!(menu.height, 24);

    let dock = session
        .surfaces()
        .iter()
        .find(|s| s.role == ChromeRole::Dock)
        .expect("dock");
    assert!(dock.mapped);
    assert_eq!(dock.layer, "bottom");
    assert_eq!(dock.exclusive_zone, 64);
    assert_eq!(dock.width, 1280);
    assert_eq!(dock.height, 64);
}

#[test]
fn layout_rects_menu_top_dock_bottom_full_width() {
    let session = ChromeSession::bootstrap_default(1280, 800, 24, 64);
    let rects = session.layout_rects();
    assert_eq!(rects.len(), 2);

    let menu = rects
        .iter()
        .find(|(r, ..)| *r == ChromeRole::MenuBar)
        .copied()
        .expect("menu rect");
    assert_eq!(menu, (ChromeRole::MenuBar, 0, 0, 1280, 24));

    let dock = rects
        .iter()
        .find(|(r, ..)| *r == ChromeRole::Dock)
        .copied()
        .expect("dock rect");
    assert_eq!(dock, (ChromeRole::Dock, 0, 800 - 64, 1280, 64));
}

#[test]
fn layer_assignment_menu_top_dock_bottom_overlay_for_notifications() {
    assert_eq!(ChromeRole::MenuBar.default_layer(), "top");
    assert_eq!(ChromeRole::Dock.default_layer(), "bottom");
    assert_eq!(ChromeRole::NotificationOverlay.default_layer(), "overlay");

    let mut session = ChromeSession::bootstrap_default(1024, 768, 28, 48);
    session.ensure_notification_overlay(320, 120);
    session.map(ChromeRole::NotificationOverlay);

    let overlay = session
        .surfaces()
        .iter()
        .find(|s| s.role == ChromeRole::NotificationOverlay)
        .expect("overlay");
    assert_eq!(overlay.layer, "overlay");
    assert_eq!(overlay.exclusive_zone, 0);
    assert!(overlay.mapped);

    let rects = session.layout_rects();
    let ov = rects
        .iter()
        .find(|(r, ..)| *r == ChromeRole::NotificationOverlay)
        .copied()
        .expect("overlay rect");
    // top-right
    assert_eq!(
        ov,
        (ChromeRole::NotificationOverlay, 1024 - 320, 0, 320, 120)
    );
}

#[test]
fn map_unmap_toggles_mapped_and_layout_rects() {
    let mut session = ChromeSession::bootstrap_default(800, 600, 24, 64);
    assert_eq!(session.layout_rects().len(), 2);

    session.unmap(ChromeRole::MenuBar);
    assert!(
        !session
            .surfaces()
            .iter()
            .find(|s| s.role == ChromeRole::MenuBar)
            .unwrap()
            .mapped
    );
    assert_eq!(session.layout_rects().len(), 1);
    assert!(session
        .layout_rects()
        .iter()
        .all(|(r, ..)| *r == ChromeRole::Dock));

    session.map(ChromeRole::MenuBar);
    assert_eq!(session.layout_rects().len(), 2);
}
