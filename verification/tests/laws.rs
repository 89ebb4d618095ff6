use slopos_shell::menu_server::{add_status_item, StatusItem};
use slopos_shell::app_finder::{ranked_app_matches, sorted_unique_apps, DesktopApp};
use slopos_shell::app_index::{index_worker_step, IndexAction, IndexWake};
use slopos_shell::dock::{
    dock_visibility_at_pointer_edge, dock_visibility_for_window_state, DockVisibilityChange,
};
use slopos_shell::lock_client::{LockEntry, LockKey, LockKeyOutcome};
use slopos_shell::chrome_protocol::{next_chrome_focus, ChromeFocusTarget, ChromeRole, ChromeSession};
use slopos_shell::display_arrange::{
    normalize_arrangement, place_outputs, ArrangeMode, DisplayArrangement, DisplayOutput,
};
use slopos_shell::fdo_notifications::{NotificationPayload, NotificationServerState};
use slopos_shell::foreign_toplevel::ForeignToplevelRegistry;
use slopos_shell::foreign_toplevel_client::{
    apply_foreign_toplevel_list_event, ForeignToplevelListEvent, HandleEvent, PendingToplevels,
};
use slopos_shell::i18n::{LocaleId, MessageCatalog};
use slopos_shell::idle_policy::{idle_phase, IdleConfig, IdleInhibitState, IdlePhase, InhibitReason};
use slopos_shell::keyboard_nav::{apply_chrome_nav, KeyboardNavIntent};

fn app(id: &str, name: &str, program: &str) -> DesktopApp {
    DesktopApp {
        id: id.to_string(),
        name: name.to_string(),
        argv: vec![program.to_string()],
        icon: String::new(),
        comment: String::new(),
        terminal: false,
    }
}

#[test]
fn four_tabs_come_back_and_shift_tab_undoes_tab() {
    for start in [
        ChromeFocusTarget::MenuBar,
        ChromeFocusTarget::DesktopIcons,
        ChromeFocusTarget::Windows,
        ChromeFocusTarget::Dock,
    ] {
        let mut f = start;
        for _ in 0..4 {
            f = next_chrome_focus(f);
        }
        assert_eq!(f, start);
        let n = apply_chrome_nav(start, KeyboardNavIntent::NextChromeRegion);
        assert_eq!(apply_chrome_nav(n, KeyboardNavIntent::PrevChromeRegion), start);
    }
}

#[test]
fn last_map_or_unmap_wins() {
    let mut s = ChromeSession::bootstrap_default(800, 600, 24, 64);
    s.unmap(ChromeRole::Dock);
    s.map(ChromeRole::Dock);
    s.unmap(ChromeRole::Dock);
    assert_eq!(s.layout_rects().len(), 1);
    s.map(ChromeRole::Dock);
    assert_eq!(s.layout_rects().len(), 2);
}

#[test]
fn idle_phase_never_goes_back_while_idle() {
    let cfg = IdleConfig {
        warn_after_secs: 100,
        lock_after_secs: 50,
        suspend_after_secs: 0,
        lock_on_suspend: true,
        inhibited: false,
    };
    let inh = IdleInhibitState::new();
    let rank = |p: IdlePhase| match p {
        IdlePhase::Active => 0,
        IdlePhase::IdleWarn => 1,
        IdlePhase::ShouldLock => 2,
        IdlePhase::ShouldSuspend => 3,
    };
    let mut last = 0;
    for secs in 0..200 {
        let r = rank(idle_phase(&cfg, secs, false, &inh));
        assert!(r >= last);
        last = r;
    }
}

#[test]
fn inhibit_hold_release() {
    let mut inh = IdleInhibitState::new();
    inh.add(InhibitReason::Media);
    inh.add(InhibitReason::Media);
    inh.add(InhibitReason::Manual);
    assert_eq!(inh.reasons().len(), 2);
    inh.remove(InhibitReason::Media);
    assert_eq!(inh.reasons(), &[InhibitReason::Manual]);
    assert!(inh.is_inhibited());
    inh.remove(InhibitReason::Manual);
    assert!(!inh.is_inhibited());
}

#[test]
fn notify_then_close_restores() {
    let mut st = NotificationServerState::new();
    let a = st.notify(NotificationPayload::new("a", "one", ""));
    let before = st.active_ids();
    let b = st.notify(NotificationPayload::new("a", "two", ""));
    assert_ne!(a, b);
    assert_ne!(b, 0);
    assert_eq!(st.get(b).unwrap().summary, "two");
    assert!(st.close(b));
    assert_eq!(st.active_ids(), before);
}

#[test]
fn catalog_insert_then_get() {
    let mut cat = MessageCatalog::new();
    let pt = LocaleId::new("pt", Some("BR".to_string()));
    cat.insert("greet", "PT-br", "Olá");
    assert_eq!(cat.get("greet", &pt), "Olá");
    let pt_pt = LocaleId::new("pt", Some("PT".to_string()));
    cat.insert("bye", "pt", "Tchau");
    assert_eq!(cat.get("bye", &pt_pt), "Tchau");
}

#[test]
fn normalize_keeps_one_enabled_primary() {
    let mut a = DisplayOutput::new("A", 100, 100);
    let mut b = DisplayOutput::new("B", 100, 100);
    let mut c = DisplayOutput::new("C", 100, 100).with_scale(900);
    a.is_primary = true;
    b.is_primary = true;
    c.is_primary = true;
    a.enabled = false;
    let arr = DisplayArrangement { mode: ArrangeMode::ExtendRight, outputs: vec![a, b, c] };
    let n = normalize_arrangement(arr).unwrap();
    let primaries: Vec<&str> = n
        .outputs
        .iter()
        .filter(|o| o.enabled && o.is_primary)
        .map(|o| o.name.as_str())
        .collect();
    assert_eq!(primaries, ["B"]);
    assert_eq!(n.outputs[2].scale_percent, 400);
}

#[test]
fn announce_then_close_restores_registry() {
    let mut reg = ForeignToplevelRegistry::new();
    apply_foreign_toplevel_list_event(
        &mut reg,
        ForeignToplevelListEvent::Toplevel {
            handle_id: "x".into(),
            title: "X".into(),
            app_id: "x".into(),
        },
    );
    let before = reg.len();
    apply_foreign_toplevel_list_event(
        &mut reg,
        ForeignToplevelListEvent::Toplevel {
            handle_id: "y".into(),
            title: "Y".into(),
            app_id: "y".into(),
        },
    );
    apply_foreign_toplevel_list_event(&mut reg, ForeignToplevelListEvent::Closed { handle_id: "y".into() });
    apply_foreign_toplevel_list_event(&mut reg, ForeignToplevelListEvent::Finished);
    assert_eq!(reg.len(), before);
    assert_eq!(reg.entries()[0].handle_id, "x");
}

#[test]
fn search_results_are_ranked_unique_matches() {
    let apps = vec![
        app("b", "Beta", "/usr/bin/beta"),
        app("a2", "ALPHA", "/opt/alpha"),
        app("a1", "Alpha", "/usr/bin/alpha"),
        app("g", "Gamma", "/usr/bin/gamma"),
    ];
    let r = ranked_app_matches(&apps, "  ALPHA ");
    let ids: Vec<&str> = r.iter().map(|a| a.id.as_str()).collect();
    // Both Alpha entries share normalized name and executable identity.
    assert_eq!(ids, ["a1"]);
    let r = ranked_app_matches(&apps, "a");
    assert!(r.iter().all(|x| x.id != "g" || x.name.to_lowercase().contains('a')));
    let r = ranked_app_matches(&apps, "");
    assert_eq!(r.len(), 3);
}

#[test]
fn search_results_do_not_depend_on_discovery_order() {
    let apps = vec![
        app("editor-b", "Editor", "/usr/bin/editor-2"),
        app("notes", "Notes", "/usr/bin/notes"),
        app("editor-a", "Editor", "/usr/bin/editor"),
        app("term", "Terminal", "/usr/bin/xterm"),
    ];
    let mut reversed = apps.clone();
    reversed.reverse();
    let mut rotated = apps.clone();
    rotated.rotate_left(2);
    for query in ["", "edit", "e", "t"] {
        let a: Vec<String> = ranked_app_matches(&apps, query).into_iter().map(|x| x.id).collect();
        let b: Vec<String> = ranked_app_matches(&reversed, query).into_iter().map(|x| x.id).collect();
        let c: Vec<String> = ranked_app_matches(&rotated, query).into_iter().map(|x| x.id).collect();
        assert_eq!(a, b, "query {query:?}");
        assert_eq!(a, c, "query {query:?}");
    }
}

#[test]
fn scan_keeps_the_last_entry_per_id() {
    let found = vec![
        app("files", "Files", "/usr/bin/pcmanfm"),
        app("term", "Terminal", "/usr/bin/xterm"),
        app("files", "Files (user)", "/home/u/bin/files"),
    ];
    let apps = sorted_unique_apps(found);
    assert_eq!(apps.len(), 2);
    let files = apps.iter().find(|a| a.id == "files").expect("files kept");
    assert_eq!(files.name, "Files (user)");
}

#[test]
fn extend_right_places_outputs_edge_to_edge() {
    let arr = DisplayArrangement {
        mode: ArrangeMode::ExtendRight,
        outputs: vec![
            DisplayOutput::new("A", 1920, 1080),
            DisplayOutput::new("B", 1280, 1024),
            DisplayOutput::new("C", 800, 600),
        ],
    };
    let placed = place_outputs(&arr).expect("placed");
    assert_eq!(placed.len(), 3);
    for w in placed.windows(2) {
        let (lw, _) = w[0].output.logical_size();
        assert_eq!(w[1].x, w[0].x + lw as i32);
        assert_eq!(w[1].y, 0);
    }
    assert_eq!(placed[0].x, 0);
}

#[test]
fn dock_stays_down_over_fullscreen() {
    for maximized in [false, true] {
        for dodge in [false, true] {
            for visible in [false, true] {
                let a = dock_visibility_for_window_state(true, maximized, dodge, visible);
                assert!(a != DockVisibilityChange::Show && a != DockVisibilityChange::Reveal);
                for near in [false, true] {
                    assert_eq!(
                        dock_visibility_at_pointer_edge(true, maximized, dodge, visible, near),
                        DockVisibilityChange::NoChange
                    );
                }
            }
        }
    }
}

#[test]
fn lock_entry_type_then_backspace_restores() {
    let mut entry = LockEntry::new("pw".to_string());
    entry.press_key(LockKey::Other { utf8: None, keysym: 'p' as u32 });
    entry.press_key(LockKey::Other { utf8: None, keysym: 'x' as u32 });
    entry.press_key(LockKey::Backspace);
    assert_eq!(entry.entered(), "p");
    assert_eq!(entry.press_key(LockKey::Enter), LockKeyOutcome::Rejected);
    assert_eq!(entry.entered(), "");
}

#[test]
fn pending_handle_announced_then_closed_is_forgotten() {
    let mut pending = PendingToplevels::new();
    pending.announce(4);
    pending.handle_event(4, HandleEvent::Closed);
    assert_eq!(pending.handle_event(4, HandleEvent::Done), None);
}

#[test]
fn index_rescans_are_debounced() {
    for since in [0u64, 10, 49, 50, 1000] {
        match index_worker_step(IndexWake::Refresh, since) {
            IndexAction::Scan { wait_ms } => assert!(since + wait_ms >= 50),
            other => panic!("unexpected {other:?}"),
        }
    }
}

#[test]
fn status_items_stay_by_priority_and_none_is_lost() {
    let priorities = [3, -1, 7, 3, 0, 7, 12, -5, 3];
    let mut items: Vec<StatusItem> = Vec::new();
    for (n, p) in priorities.iter().enumerate() {
        add_status_item(
            &mut items,
            StatusItem { id: format!("item{n}"), label: String::new(), icon: None, priority: *p },
        );
        assert_eq!(items.len(), n + 1);
        assert!(items.windows(2).all(|w| w[1].priority <= w[0].priority));
    }
    let mut ids: Vec<String> = items.iter().map(|i| i.id.clone()).collect();
    ids.sort();
    let mut expected: Vec<String> = (0..priorities.len()).map(|n| format!("item{n}")).collect();
    expected.sort();
    assert_eq!(ids, expected);
}

#[test]
fn search_results_follow_rank_then_application_order() {
    let apps = vec![
        app("term", "Terminal", "/usr/bin/xterm"),
        app("notes", "Notes", "/usr/bin/notes"),
        app("editor-b", "Editor", "/usr/bin/editor-2"),
        app("editor-a", "Editor", "/usr/bin/editor"),
    ];
    let r = ranked_app_matches(&apps, "e");
    let names: Vec<&str> = r.iter().map(|a| a.name.as_str()).collect();
    assert_eq!(names, ["Editor", "Editor", "Notes", "Terminal"]);
}
