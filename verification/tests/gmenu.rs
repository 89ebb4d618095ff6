use slopos_shell::appmenu::valid_bus_name;
use slopos_shell::gmenu::{gtk_exporter_from_properties, valid_gtk_object_path};

fn s(v: &str) -> Option<String> {
    Some(v.to_string())
}

#[test]
fn validates_gtk_exporter_addresses() {
    assert!(valid_bus_name(":1.42"));
    assert!(!valid_bus_name("org.example.App"));
    assert!(valid_gtk_object_path("/org/gtk/Test/menus/MenuBar"));
    assert!(valid_gtk_object_path("/org/gtk/Test/windows/0"));
    assert!(!valid_gtk_object_path("org/gtk/Test"));
    assert!(!valid_gtk_object_path("/org/gtk/menu-name"));
}

#[test]
fn gtk_exporter_needs_menu_and_an_action_group() {
    let x = gtk_exporter_from_properties(
        7,
        s(":1.42"),
        None,
        s("/org/gtk/Test/menus/AppMenu"),
        s("/org/gtk/Test"),
        None,
    )
    .expect("exporter");
    assert_eq!(x.window_id, 7);
    assert_eq!(x.menu_path, "/org/gtk/Test/menus/AppMenu");
    assert_eq!(x.app_action_path.as_deref(), Some("/org/gtk/Test"));
    // The menu bar path wins over the app-menu path.
    let x = gtk_exporter_from_properties(
        7,
        s(":1.42"),
        s("/org/gtk/Test/menus/MenuBar"),
        s("/org/gtk/Test/menus/AppMenu"),
        None,
        s("/org/gtk/Test/window/1"),
    )
    .expect("exporter");
    assert_eq!(x.menu_path, "/org/gtk/Test/menus/MenuBar");
    // No action group, or an invalid one, means no exporter.
    assert!(gtk_exporter_from_properties(7, s(":1.42"), s("/m"), None, None, None).is_none());
    assert!(gtk_exporter_from_properties(7, s(":1.42"), s("/m"), None, s("bad"), None).is_none());
    assert!(gtk_exporter_from_properties(7, s("org.x"), s("/m"), None, s("/a"), None).is_none());
}
