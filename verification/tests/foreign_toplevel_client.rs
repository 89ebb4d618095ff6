use slopos_shell::foreign_toplevel::ForeignToplevelRegistry;
use slopos_shell::foreign_toplevel_client::{
    apply_foreign_toplevel_list_event, apply_foreign_toplevel_list_events, ForeignToplevelListEvent,
    HandleEvent, PendingToplevels,
};

#[test]
fn apply_toplevel_and_closed() {
    let mut reg = ForeignToplevelRegistry::new();
    apply_foreign_toplevel_list_event(
        &mut reg,
        ForeignToplevelListEvent::Toplevel {
            handle_id: "h1".into(),
            title: "Finder".into(),
            app_id: "finder".into(),
        },
    );
    assert_eq!(reg.len(), 1);
    assert!(reg.force_quit_labels().iter().any(|l| l.contains("Finder")));
    apply_foreign_toplevel_list_event(
        &mut reg,
        ForeignToplevelListEvent::Closed {
            handle_id: "h1".into(),
        },
    );
    assert_eq!(reg.len(), 0);
}

#[test]
fn apply_update_existing() {
    let mut reg = ForeignToplevelRegistry::new();
    apply_foreign_toplevel_list_events(
        &mut reg,
        &[
            ForeignToplevelListEvent::Toplevel {
                handle_id: "a".into(),
                title: "Old".into(),
                app_id: "app".into(),
            },
            ForeignToplevelListEvent::Toplevel {
                handle_id: "a".into(),
                title: "New".into(),
                app_id: "app".into(),
            },
        ],
    );
    assert_eq!(reg.len(), 1);
    let labels = reg.force_quit_labels();
    assert!(labels.iter().any(|l| l.contains("New")));
    assert!(!labels.iter().any(|l| l.contains("Old")));
}


#[test]
fn try_sync_without_wayland_is_safe() {
    // With no compositor nothing is read: an empty batch leaves the registry as it was.
    let mut reg = ForeignToplevelRegistry::new();
    apply_foreign_toplevel_list_events(&mut reg, &[]);
    assert!(reg.is_empty());
}

#[test]
fn pending_handle_reports_become_list_events() {
    let mut pending = PendingToplevels::new();
    pending.announce(7);
    assert!(pending.handle_event(7, HandleEvent::Title("Finder".into())).is_none());
    assert!(pending.handle_event(7, HandleEvent::AppId("finder".into())).is_none());
    assert_eq!(
        pending.handle_event(7, HandleEvent::Done),
        Some(ForeignToplevelListEvent::Toplevel {
            handle_id: "ftl-7".into(),
            title: "Finder".into(),
            app_id: "finder".into(),
        })
    );
    assert!(pending.handle_event(7, HandleEvent::Identifier("abc".into())).is_none());
    assert_eq!(
        pending.handle_event(7, HandleEvent::Closed),
        Some(ForeignToplevelListEvent::Closed { handle_id: "abc".into() })
    );
    // Closed again: no longer pending, so the fallback identifier is used.
    assert_eq!(
        pending.handle_event(7, HandleEvent::Closed),
        Some(ForeignToplevelListEvent::Closed { handle_id: "ftl-7".into() })
    );
    assert_eq!(pending.handle_event(7, HandleEvent::Done), None);
}

#[test]
fn reannounce_resets_pending_details() {
    let mut pending = PendingToplevels::new();
    pending.announce(3);
    pending.handle_event(3, HandleEvent::Title("Old".into()));
    pending.announce(3);
    assert_eq!(
        pending.handle_event(3, HandleEvent::Done),
        Some(ForeignToplevelListEvent::Toplevel {
            handle_id: "ftl-3".into(),
            title: String::new(),
            app_id: String::new(),
        })
    );
}
