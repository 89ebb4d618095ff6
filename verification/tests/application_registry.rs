use slopos_shell::application_registry::ApplicationRegistry;

#[test]
fn register_focus_unregister() {
    let mut reg = ApplicationRegistry::new();
    reg.register("com.slopos.finder");
    reg.register("com.slopos.textedit");
    reg.register("com.slopos.finder");
    assert_eq!(reg.running_apps().len(), 2);
    assert!(reg.is_running("com.slopos.finder"));
    assert!(reg.focused_app().is_none());
    reg.set_focused("com.slopos.textedit");
    assert_eq!(reg.focused_app().unwrap().bundle_id, "com.slopos.textedit");
    assert_eq!(reg.running_apps().iter().filter(|a| a.focused).count(), 1);
    reg.unregister("com.slopos.textedit");
    assert!(!reg.is_running("com.slopos.textedit"));
    assert!(reg.focused_app().is_none());
    let app = reg.running_apps()[0];
    assert!(app.pid.is_none() && app.windows.is_empty());
}
