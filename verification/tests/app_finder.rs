use slopos_shell::app_finder::{
    application_dirs_from_data_dirs, parse_desktop_entry, parse_exec_argv, ranked_app_matches,
    sorted_unique_apps, DesktopApp,
};

fn test_app(id: &str, name: &str, comment: &str, program: &str) -> DesktopApp {
    DesktopApp {
        id: id.to_string(),
        name: name.to_string(),
        argv: vec![program.to_string()],
        icon: String::new(),
        comment: comment.to_string(),
        terminal: false,
    }
}

#[test]
fn exec_parser_preserves_quoted_arguments_and_drops_file_codes() {
    assert_eq!(
        parse_exec_argv(r#"/bin/echo --title "Hello world" %U %%"#),
        Some(vec![
            "/bin/echo".to_string(),
            "--title".to_string(),
            "Hello world".to_string(),
            "%".to_string(),
        ])
    );
}

#[test]
fn exec_parser_rejects_unterminated_quotes() {
    assert_eq!(parse_exec_argv(r#"/bin/echo "broken"#), None);
}

#[test]
fn hidden_non_application_and_foreign_desktop_entries_are_rejected() {
    let hidden =
        "[Desktop Entry]\nType=Application\nName=Hidden\nExec=/bin/true\nHidden=true\n";
    assert!(parse_desktop_entry(hidden, "hidden").is_none());

    let link = "[Desktop Entry]\nType=Link\nName=Docs\nExec=/bin/true\n";
    assert!(parse_desktop_entry(link, "link").is_none());

    let gnome_only = "[Desktop Entry]\nType=Application\nName=GNOME only\nExec=/bin/true\nOnlyShowIn=GNOME;\n";
    assert!(parse_desktop_entry(gnome_only, "gnome-only").is_none());
}

#[test]
fn valid_entry_is_parsed_without_shell_expansion() {
    let entry = r#"[Desktop Entry]
Type=Application
Name=Echo
Comment=Test
Exec=/bin/echo "hello world" %F
Icon=utilities-terminal
Terminal=false
"#;
    let parsed = parse_desktop_entry(entry, "echo").expect("valid entry");
    let program_found = std::path::Path::new(parsed.program()).is_file();
    let app = parsed.into_app(false, program_found).expect("valid entry");
    assert_eq!(app.name, "Echo");
    assert_eq!(app.argv, vec!["/bin/echo", "hello world"]);
    assert!(!app.terminal);
}

#[test]
fn fuzzy_matching_accepts_subsequences() {
    let apps = vec![test_app("xterm", "XTerm", "Terminal", "/usr/bin/xterm")];
    let matches = ranked_app_matches(&apps, "xtrm");
    assert_eq!(matches.len(), 1);
    assert_eq!(matches[0].id, "xterm");
}

#[test]
fn name_ranks_above_secondary_fuzzy_metadata() {
    let apps = vec![
        test_app(
            "secondary",
            "Console",
            "A terminal utility",
            "/usr/bin/console",
        ),
        test_app(
            "token",
            "Xfce Terminal",
            "A shell",
            "/usr/bin/xfce4-terminal",
        ),
        test_app(
            "prefix",
            "Terminal Emulator",
            "A shell",
            "/usr/bin/terminal-emulator",
        ),
        test_app("exact", "Terminal", "A shell", "/usr/bin/terminal"),
    ];

    let matches = ranked_app_matches(&apps, "terminal");
    let ids = matches
        .iter()
        .map(|app| app.id.as_str())
        .collect::<Vec<_>>();
    assert_eq!(ids, ["exact", "prefix", "token", "secondary"]);
}

#[test]
fn semantic_duplicates_are_suppressed_but_distinct_executables_remain() {
    let apps = vec![
        test_app("notes-z", "Notes", "Second desktop ID", "/usr/bin/notes"),
        test_app("notes-a", "  notes  ", "First desktop ID", "notes"),
        test_app(
            "notes-pro",
            "Notes",
            "Different program",
            "/usr/bin/notes-pro",
        ),
    ];

    let matches = ranked_app_matches(&apps, "");
    assert_eq!(matches.len(), 2);
    assert_eq!(matches[0].id, "notes-a");
    assert_eq!(matches[1].id, "notes-pro");
}

#[test]
fn equal_rank_ties_are_deterministic_independent_of_input_order() {
    let first = test_app("editor-a", "Editor", "", "/usr/bin/editor");
    let second = test_app("editor-b", "Editor", "", "/usr/bin/editor-2");
    let forward = ranked_app_matches(&[first.clone(), second.clone()], "edit");
    let reverse = ranked_app_matches(&[second, first], "edit");

    let forward_ids = forward
        .iter()
        .map(|app| app.id.as_str())
        .collect::<Vec<_>>();
    let reverse_ids = reverse
        .iter()
        .map(|app| app.id.as_str())
        .collect::<Vec<_>>();
    assert_eq!(forward_ids, reverse_ids);
    assert_eq!(forward_ids, ["editor-a", "editor-b"]);
}

#[test]
fn scanned_apps_keep_last_entry_per_id_in_name_order() {
    let found = vec![
        test_app("term.desktop", "Terminal", "system copy", "/usr/bin/xterm"),
        test_app("files.desktop", "Files", "", "/usr/bin/nautilus"),
        test_app("term.desktop", "Terminal", "user copy", "/usr/bin/foot"),
        test_app("editor.desktop", "Editor", "", "/usr/bin/gedit"),
    ];
    let apps = sorted_unique_apps(found);
    let ids: Vec<&str> = apps.iter().map(|a| a.id.as_str()).collect();
    assert_eq!(ids, vec!["editor.desktop", "files.desktop", "term.desktop"]);
    assert_eq!(apps[2].comment, "user copy");
    assert_eq!(apps[2].argv, vec!["/usr/bin/foot"]);
}

#[test]
fn application_search_includes_custom_xdg_data_directories() {
    let dirs = application_dirs_from_data_dirs(Some("/opt/slopos/share:/usr/share"), Some("/home/u"));
    assert!(dirs.contains(&"/opt/slopos/share/applications".to_string()));
    assert_eq!(
        dirs.iter()
            .filter(|directory| directory.as_str() == "/usr/share/applications")
            .count(),
        1
    );
}

#[test]
fn application_dirs_default_home_and_order() {
    let dirs = application_dirs_from_data_dirs(None, None);
    assert_eq!(
        dirs,
        vec![
            "/usr/share/applications",
            "/usr/local/share/applications",
            "/tmp/.local/share/applications",
        ]
    );
    let dirs = application_dirs_from_data_dirs(Some("/a/:/usr/local/share"), Some("/root/"));
    assert_eq!(
        dirs,
        vec![
            "/usr/share/applications",
            "/usr/local/share/applications",
            "/a/applications",
            "/root/.local/share/applications",
        ]
    );
}
