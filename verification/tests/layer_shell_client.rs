use slopos_shell::chrome_protocol::{ChromeRole, ChromeSession};
use slopos_shell::layer_shell_client::{
    chrome_to_layer_shell_requests, layer_shell_bind_summary, try_map_layer_shell_chrome,
};

#[test]
fn chrome_to_layer_requests_menu_and_dock() {
    let session = ChromeSession::bootstrap_default(1280, 800, 24, 64);
    let reqs = chrome_to_layer_shell_requests(&session);
    assert_eq!(reqs.len(), 2);
    let menu = reqs.iter().find(|r| r.namespace == "menu-bar").unwrap();
    assert!(menu.anchor_top);
    assert!(!menu.anchor_bottom);
    assert_eq!(menu.height, 24);
    assert_eq!(menu.layer, "top");
    let dock = reqs.iter().find(|r| r.namespace == "dock").unwrap();
    assert!(dock.anchor_bottom);
    assert_eq!(dock.height, 64);
    assert_eq!(dock.exclusive_zone, 64);
    assert_eq!(dock.layer, "bottom");
}

#[test]
fn unmapped_surfaces_omitted() {
    let mut session = ChromeSession::bootstrap_default(800, 600, 20, 40);
    session.unmap(ChromeRole::Dock);
    let reqs = chrome_to_layer_shell_requests(&session);
    assert_eq!(reqs.len(), 1);
    assert_eq!(reqs[0].role, ChromeRole::MenuBar);
}

#[test]
fn bind_summary_records_namespaces() {
    let session = ChromeSession::bootstrap_default(100, 100, 10, 10);
    let reqs = chrome_to_layer_shell_requests(&session);
    let summary = layer_shell_bind_summary("wayland-0", &reqs, true);
    assert!(summary.layer_shell_global);
    assert!(summary.mapped_namespaces.contains(&"menu-bar".into()));
    assert!(summary.mapped_namespaces.contains(&"dock".into()));
    assert_eq!(summary.wayland_display, "wayland-0");
}

#[test]
fn try_map_is_retired_noop() {
    let session = ChromeSession::bootstrap_default(640, 480, 22, 48);
    assert!(try_map_layer_shell_chrome(&session).is_none());
}
