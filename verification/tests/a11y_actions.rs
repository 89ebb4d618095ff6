use slopos_shell::a11y_actions::{
    a11y_invoke_is_live, actions_for_chrome, chrome_target_for_atspi_path, classify_a11y_invoke,
    invoke_id_for_object_name, plan_invoke, primary_invoke_for_chrome, resolve_pending_invoke,
    session_action_for_invoke, session_root_actions, summarize_actions, A11yDispatchTarget,
};
use slopos_shell::chrome_protocol::ChromeFocusTarget;
use slopos_shell::session_actions::SessionAction;

#[test]
fn chrome_and_session_actions() {
    let dock = actions_for_chrome(ChromeFocusTarget::Dock);
    assert!(dock.iter().any(|a| a.name == "click"));
    let root = session_root_actions();
    assert!(root.iter().any(|a| a.invoke_id == "shell.lock"));
    assert_eq!(
        session_action_for_invoke("shell.lock"),
        Some(SessionAction::Lock)
    );
}

#[test]
fn invoke_plan_bounds() {
    let a = actions_for_chrome(ChromeFocusTarget::Windows);
    let p = plan_invoke(&a, 0);
    assert!(p.valid);
    assert!(!plan_invoke(&a, 99).valid);
    let s = summarize_actions("/org/a11y/atspi/accessible/3", &a);
    assert_eq!(s.n_actions, a.len() as i32);
}

#[test]
fn resolve_pending_lock_by_name() {
    let p = resolve_pending_invoke(
        "/org/a11y/atspi/accessible/0/c0",
        "Lock Screen",
        0,
        "Activate",
    );
    assert!(p.valid);
    assert_eq!(p.invoke_id, "shell.lock");
}

#[test]
fn resolve_chrome_path_primary() {
    let p = resolve_pending_invoke("/org/a11y/atspi/accessible/2", "Dock", 0, "Focus");
    assert!(p.valid);
    assert_eq!(p.invoke_id, "chrome.dock.activate");
    assert_eq!(
        chrome_target_for_atspi_path("/org/a11y/atspi/accessible/0"),
        Some(ChromeFocusTarget::MenuBar)
    );
    assert_eq!(
        primary_invoke_for_chrome(ChromeFocusTarget::MenuBar).invoke_id,
        "chrome.menu.activate"
    );
}

#[test]
fn classify_daily_driver_dispatch_paths() {
    assert_eq!(
        classify_a11y_invoke("shell.lock"),
        A11yDispatchTarget::MenuAction("shell.lock")
    );
    assert_eq!(
        classify_a11y_invoke("shell.log_out"),
        A11yDispatchTarget::MenuAction("shell.log_out")
    );
    assert_eq!(
        classify_a11y_invoke("shell.logout"),
        A11yDispatchTarget::MenuAction("shell.log_out")
    );
    assert_eq!(
        classify_a11y_invoke("shell.notification_center"),
        A11yDispatchTarget::MenuAction("shell.notification_center")
    );
    assert_eq!(
        classify_a11y_invoke("shell.force_quit"),
        A11yDispatchTarget::MenuAction("shell.force_quit")
    );
    assert_eq!(
        classify_a11y_invoke("chrome.window.close"),
        A11yDispatchTarget::ChromeWindowClose
    );
    assert_eq!(
        classify_a11y_invoke("chrome.window.activate"),
        A11yDispatchTarget::ChromeWindowActivateNext
    );
    assert_eq!(
        classify_a11y_invoke("workspace.next"),
        A11yDispatchTarget::MenuAction("workspace.next")
    );
    assert_eq!(
        classify_a11y_invoke("workspace.previous"),
        A11yDispatchTarget::MenuAction("workspace.previous")
    );

    assert!(a11y_invoke_is_live("shell.lock"));
    assert!(a11y_invoke_is_live("shell.log_out"));
    assert!(a11y_invoke_is_live("shell.notification_center"));
    assert!(a11y_invoke_is_live("shell.force_quit"));
    assert!(a11y_invoke_is_live("chrome.window.close"));
    assert!(a11y_invoke_is_live("chrome.window.activate"));
    assert!(a11y_invoke_is_live("workspace.next"));
    assert!(a11y_invoke_is_live("chrome.dock.activate"));
    assert!(a11y_invoke_is_live("chrome.desktop.open"));
    assert!(a11y_invoke_is_live("chrome.menu.activate"));
    assert!(a11y_invoke_is_live("chrome.menu.system"));
    assert!(a11y_invoke_is_live("chrome.dock.menu"));
    assert!(a11y_invoke_is_live("chrome.desktop.menu"));
    assert!(!a11y_invoke_is_live("not.a.real.action"));
}

#[test]
fn primary_window_chrome_is_activate_next() {
    let plan = primary_invoke_for_chrome(ChromeFocusTarget::Windows);
    assert!(plan.valid);
    assert_eq!(plan.invoke_id, "chrome.window.activate");
    assert_eq!(
        classify_a11y_invoke(&plan.invoke_id),
        A11yDispatchTarget::ChromeWindowActivateNext
    );
}

#[test]
fn session_root_includes_workspace_cycle() {
    let root = session_root_actions();
    assert!(root.iter().any(|a| a.invoke_id == "workspace.next"));
    assert!(root.iter().any(|a| a.invoke_id == "workspace.previous"));
    assert_eq!(
        invoke_id_for_object_name("Next Workspace"),
        Some("workspace.next")
    );
    assert_eq!(
        invoke_id_for_object_name("Previous Workspace"),
        Some("workspace.previous")
    );
}
