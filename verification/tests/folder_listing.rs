use slopos_shell::folder_listing::{folder_icons, sorted_visible_entries, unreadable_folder_icon};

fn entries(list: &[(&str, bool)]) -> Vec<(String, bool)> {
    list.iter().map(|(n, d)| (n.to_string(), *d)).collect()
}

#[test]
fn folders_first_then_case_insensitive_names() {
    let sorted = sorted_visible_entries(entries(&[
        ("notes.txt", false),
        ("Zeta", true),
        ("alpha", true),
        ("Beta.md", false),
        (".hidden", true),
        (".profile", false),
    ]));
    assert_eq!(
        sorted,
        entries(&[("alpha", true), ("Zeta", true), ("Beta.md", false), ("notes.txt", false)])
    );
}

#[test]
fn equal_lowercase_names_keep_read_order() {
    let sorted = sorted_visible_entries(entries(&[("README", false), ("readme", false), ("Readme", false)]));
    assert_eq!(sorted, entries(&[("README", false), ("readme", false), ("Readme", false)]));
}

#[test]
fn folder_icons_name_folders_and_documents() {
    let icons = folder_icons(entries(&[("b.txt", false), ("a", true)]));
    let shown: Vec<(String, String)> = icons.into_iter().map(|i| (i.label, i.icon)).collect();
    assert_eq!(
        shown,
        vec![("a".to_string(), "folder".to_string()), ("b.txt".to_string(), "document".to_string())]
    );
}

#[test]
fn empty_or_hidden_only_folder_shows_placeholder() {
    for list in [entries(&[]), entries(&[(".git", true)])] {
        let icons = folder_icons(list);
        assert_eq!(icons.len(), 1);
        assert_eq!(icons[0].label, "This folder is empty");
        assert_eq!(icons[0].icon, "document");
    }
}

#[test]
fn unreadable_folder_icon_names_path() {
    let icon = unreadable_folder_icon("/root/secret");
    assert_eq!(icon.label, "⚠ Unable to read: /root/secret");
    assert_eq!(icon.icon, "document");
}
