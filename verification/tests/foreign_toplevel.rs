use slopos_shell::foreign_toplevel::{
    apply_toplevel_force_quit, parse_toplevel_force_quit, rule_workspace_for_window,
    ForeignToplevelEntry, ForeignToplevelRegistry, ToplevelForceQuit,
};

fn sample_with_pid() -> ForeignToplevelEntry {
    ForeignToplevelEntry::new("ft-1", "Finder", "com.slopos.finder", Some(4242))
}

fn sample_no_pid() -> ForeignToplevelEntry {
    ForeignToplevelEntry::new("ft-2", "Doom", "org.idsoftware.doom", None)
}

#[test]
fn force_quit_skips_skip_taskbar_rules() {
    let mut reg = ForeignToplevelRegistry::new();
    reg.add(ForeignToplevelEntry::new(
        "fq",
        "Force Quit",
        "slopos-i",
        None,
    ));
    reg.add(sample_with_pid());
    let labels = reg.force_quit_labels();
    assert!(!labels.iter().any(|l| l.contains("Force Quit")));
    assert!(labels.iter().any(|l| l.contains("Finder")));
}

#[test]
fn add_update_close_registry() {
    let mut reg = ForeignToplevelRegistry::new();
    reg.add(sample_with_pid());
    assert_eq!(reg.len(), 1);
    assert!(reg.update("ft-1", Some("Finder+".into()), None, None));
    assert_eq!(
        reg.entries().iter().next().map(|e| e.title.as_str()),
        Some("Finder+")
    );
    assert!(reg.close("ft-1"));
    assert!(reg.is_empty());
    assert!(!reg.close("ft-1"));
}

#[test]
fn force_quit_labels_format_with_and_without_pid() {
    let mut reg = ForeignToplevelRegistry::new();
    reg.add(sample_with_pid());
    reg.add(sample_no_pid());
    let labels = reg.force_quit_labels();
    assert!(labels.contains(&"toplevel: Finder (pid 4242)".to_string()));
    assert!(labels.contains(&"toplevel: Doom [org.idsoftware.doom]".to_string()));
}

#[test]
fn parse_toplevel_force_quit_pid_and_app_id() {
    assert_eq!(
        parse_toplevel_force_quit("toplevel: Finder (pid 4242)"),
        Some(ToplevelForceQuit {
            title: "Finder".into(),
            app_id: None,
            pid: Some(4242),
        })
    );
    assert_eq!(
        parse_toplevel_force_quit("toplevel: Doom [org.idsoftware.doom]"),
        Some(ToplevelForceQuit {
            title: "Doom".into(),
            app_id: Some("org.idsoftware.doom".into()),
            pid: None,
        })
    );
    assert_eq!(parse_toplevel_force_quit("toplevel: "), None);
    assert_eq!(parse_toplevel_force_quit("window: SLOPOS-I"), None);
    assert_eq!(parse_toplevel_force_quit("client: finder (pid 1)"), None);
}

#[test]
fn apply_toplevel_force_quit_removes_entry() {
    let mut reg = ForeignToplevelRegistry::new();
    reg.add(sample_with_pid());
    reg.add(sample_no_pid());

    let target = parse_toplevel_force_quit("toplevel: Finder (pid 4242)").unwrap();
    assert!(apply_toplevel_force_quit(&mut reg, &target).0);
    assert_eq!(reg.len(), 1);
    assert!(reg.entries().iter().all(|e| e.handle_id == "ft-2"));

    let target2 = parse_toplevel_force_quit("toplevel: Doom [org.idsoftware.doom]").unwrap();
    assert!(apply_toplevel_force_quit(&mut reg, &target2).0);
    assert!(reg.is_empty());
}

#[test]
fn terminal_app_id_gets_workspace_from_rules() {
    let entry = ForeignToplevelEntry::new("term-1", "bash", "org.slopos-i.Terminal", Some(99));
    assert_eq!(
        entry.workspace,
        Some(1),
        "default terminal rule → workspace 1"
    );
    // Shell clamps workspace to 0..7 when applying to ShellWindow.
    let clamped = (entry.workspace.unwrap() as usize).min(7);
    assert_eq!(clamped, 1);
}

#[test]
fn rule_workspaces_move_matching_shell_windows() {
    let mut reg = ForeignToplevelRegistry::new();
    let mut notes = ForeignToplevelEntry::new("a", "Notes", "org.example.notes", None);
    notes.workspace = Some(2);
    reg.add(notes);
    reg.add(ForeignToplevelEntry::new("b", "Term", "org.slopos-i.Terminal", None));
    let mut far = ForeignToplevelEntry::new("c", "Far", "", None);
    far.workspace = Some(9);
    reg.add(far);
    assert_eq!(rule_workspace_for_window(&reg, "Notes", 0, 4), 2);
    assert_eq!(rule_workspace_for_window(&reg, "My ORG.EXAMPLE.NOTES window", 0, 4), 2);
    assert_eq!(rule_workspace_for_window(&reg, "Term", 0, 4), 1);
    assert_eq!(rule_workspace_for_window(&reg, "Far", 0, 4), 3);
    assert_eq!(rule_workspace_for_window(&reg, "Other", 0, 4), 0);
}
