use slopos_shell::bundle::{bundle_from_info, is_app_bundle_name, InfoToml};
use slopos_shell::launch_services::{AppBundle, LaunchServices};

fn bundle(id: &str, name: &str) -> AppBundle {
    AppBundle {
        bundle_id: id.to_string(),
        name: name.to_string(),
        version: "0.1.0".to_string(),
        path: format!("/Applications/{name}.app"),
        entrypoint: "bin/app".to_string(),
        supported_types: vec![],
        permissions: vec![],
    }
}

#[test]
fn new_search_paths_follow_home() {
    let s = LaunchServices::new(Some("/home/ada"));
    assert_eq!(
        s.search_paths(),
        &vec![
            "/Applications".to_string(),
            "/User/Applications".to_string(),
            "/home/ada/Applications".to_string()
        ]
    );
    assert_eq!(LaunchServices::new(Some("")).search_paths().len(), 2);
    assert_eq!(LaunchServices::new(None).search_paths().len(), 2);
}

#[test]
fn default_associations() {
    let s = LaunchServices::new(None);
    assert_eq!(s.app_for_extension("txt"), Some("com.slopos.textedit"));
    assert_eq!(s.app_for_extension("jpeg"), Some("com.slopos.imageviewer"));
    assert_eq!(s.app_for_extension("zip"), Some("com.slopos.archiveutility"));
    assert_eq!(s.app_for_extension("pdf"), Some("com.slopos.textedit"));
    assert_eq!(s.app_for_extension("exe"), None);
}

#[test]
fn register_then_lookup_and_replace() {
    let mut s = LaunchServices::new(None);
    assert!(s.bundle_for_id("com.slopos.foo").is_none());
    s.register_bundle(bundle("com.slopos.foo", "Foo"));
    s.register_bundle(bundle("com.slopos.bar", "Bar"));
    assert_eq!(s.launch_app("com.slopos.foo").unwrap().name, "Foo");
    s.register_bundle(bundle("com.slopos.foo", "Foo 2"));
    assert_eq!(s.bundle_for_id("com.slopos.foo").unwrap().name, "Foo 2");
    assert_eq!(s.bundle_for_id("com.slopos.bar").unwrap().name, "Bar");
    s.clear_bundles();
    assert!(s.launch_app("com.slopos.foo").is_none());
}

#[test]
fn bundle_from_manifest() {
    let info = InfoToml {
        bundle_id: "com.slopos.textedit".to_string(),
        name: "TextEdit".to_string(),
        version: "0.1.0".to_string(),
        entrypoint: "bin/textedit".to_string(),
        supported_types: vec!["txt".to_string()],
        permissions: vec!["files.read".to_string()],
    };
    let b = bundle_from_info(info, "/Applications/TextEdit.app".to_string());
    assert_eq!(b.bundle_id, "com.slopos.textedit");
    assert_eq!(b.entrypoint, "bin/textedit");
    assert_eq!(b.supported_types, vec!["txt"]);
    assert_eq!(b.path, "/Applications/TextEdit.app");
    assert!(is_app_bundle_name("TextEdit.app"));
    assert!(!is_app_bundle_name("TextEdit"));
    assert!(!is_app_bundle_name("app"));
}

#[test]
fn new_includes_home_applications_path() {
    let home = "/home/tester";
    let services = LaunchServices::new(Some(home));
    let expected = format!("{home}/Applications");
    assert!(
        services.search_paths().iter().any(|p| p == &expected),
        "missing {expected} in {:?}",
        services.search_paths()
    );
    assert!(services.search_paths().iter().any(|p| p == "/Applications"));
}

#[test]
fn desktop_shortcuts_are_first_six_by_name() {
    let mut s = LaunchServices::new(None);
    for (id, name) in [
        ("g", "Gamma"),
        ("a", "Alpha"),
        ("z", "Zeta"),
        ("d", "Delta"),
        ("b", "Beta"),
        ("e", "Epsilon"),
        ("a2", "Alpha"),
        ("c", "Chi"),
    ] {
        s.register_bundle(bundle(id, name));
    }
    let shortcuts = s.desktop_shortcuts();
    let ids: Vec<&str> = shortcuts.iter().map(|(_, id)| id.as_str()).collect();
    assert_eq!(ids, vec!["a", "a2", "b", "c", "d", "e"]);
    assert_eq!(shortcuts[0].0, "Alpha");
    assert!(LaunchServices::new(None).desktop_shortcuts().is_empty());
}
