use slopos_shell::fdo_notifications::{
    banner_app_id, BannerLinks,
    urgency_from_hint, urgency_from_hint_bytes, NotificationPayload, NotificationServerState,
    NotifySendStyle, Urgency, UrgencyHint,
};
use slopos_shell::notification_center::NotificationPriority;

#[test]
fn id_allocation_is_monotonic_nonzero() {
    let mut state = NotificationServerState::new();
    let a = state.allocate_id();
    let b = state.allocate_id();
    let c = state.allocate_id();
    assert_eq!((a, b, c), (1, 2, 3));
    assert_ne!(a, 0);
}

#[test]
fn notify_assigns_ids_and_stores_payload() {
    let mut state = NotificationServerState::new();
    let id = state.notify(NotificationPayload::new("app", "Hello", "World"));
    assert_eq!(id, 1);
    let stored = state.get(id).expect("stored");
    assert_eq!(stored.app_name, "app");
    assert_eq!(stored.summary, "Hello");
    assert_eq!(stored.body, "World");
    assert_eq!(stored.urgency, Urgency::Normal);
    assert_eq!(state.len(), 1);
}

#[test]
fn notify_replaces_existing_id() {
    let mut state = NotificationServerState::new();
    let id = state.notify(NotificationPayload::new("app", "One", "A"));
    let id2 = state.notify(
        NotificationPayload::new("app", "Two", "B")
            .with_replaces_id(id)
            .with_urgency(Urgency::Critical),
    );
    assert_eq!(id, id2);
    assert_eq!(state.len(), 1);
    let stored = state.get(id).unwrap();
    assert_eq!(stored.summary, "Two");
    assert_eq!(stored.urgency, Urgency::Critical);
}

#[test]
fn notify_unknown_replaces_id_allocates_new() {
    let mut state = NotificationServerState::new();
    let id = state.notify(NotificationPayload::new("app", "X", "Y").with_replaces_id(99));
    assert_eq!(id, 1);
    assert!(state.get(99).is_none());
}

#[test]
fn close_removes_notification() {
    let mut state = NotificationServerState::new();
    let id = state.notify(NotificationPayload::new("a", "s", "b"));
    assert!(state.close(id));
    assert!(!state.close(id));
    assert!(state.is_empty());
}

#[test]
fn urgency_parse_and_byte_roundtrip() {
    assert_eq!(Urgency::parse("low"), Some(Urgency::Low));
    assert_eq!(Urgency::parse("NORMAL"), Some(Urgency::Normal));
    assert_eq!(Urgency::parse("critical"), Some(Urgency::Critical));
    assert_eq!(Urgency::parse("0"), Some(Urgency::Low));
    assert_eq!(Urgency::parse("2"), Some(Urgency::Critical));
    assert_eq!(Urgency::parse("nope"), None);
    assert_eq!(Urgency::from_u8(0), Urgency::Low);
    assert_eq!(Urgency::from_u8(1), Urgency::Normal);
    assert_eq!(Urgency::from_u8(2), Urgency::Critical);
    assert_eq!(Urgency::from_u8(9), Urgency::Normal);
    assert_eq!(Urgency::Critical.as_u8(), 2);
    assert_eq!(Urgency::Low.to_priority(), NotificationPriority::Low);
    assert_eq!(
        Urgency::Critical.to_priority(),
        NotificationPriority::Critical
    );
}

#[test]
fn urgency_from_hint_bytes_defaults() {
    assert_eq!(urgency_from_hint_bytes(None), Urgency::Normal);
    assert_eq!(urgency_from_hint_bytes(Some(2)), Urgency::Critical);
}

#[test]
fn payload_builder_sets_fields() {
    let p = NotificationPayload::new("mail", "New mail", "Inbox")
        .with_replaces_id(3)
        .with_urgency(Urgency::Low)
        .with_app_icon("mail")
        .with_expire_timeout_ms(5000);
    assert_eq!(p.app_name, "mail");
    assert_eq!(p.replaces_id, 3);
    assert_eq!(p.urgency, Urgency::Low);
    assert_eq!(p.app_icon, "mail");
    assert_eq!(p.expire_timeout_ms, 5000);
}

#[test]
fn get_capabilities_and_server_info() {
    let state = NotificationServerState::new();
    let caps = state.get_capabilities();
    assert!(caps.contains(&"body"));
    let info = state.get_server_information();
    assert_eq!(info.name, "SLOPOS-I");
    assert_eq!(info.spec_version, "1.2");
}

#[test]
fn notify_send_style_parses_urgency_and_text() {
    let parsed = NotifySendStyle::parse(&["-u", "critical", "Battery", "Low power"]);
    assert_eq!(parsed.urgency, Urgency::Critical);
    assert_eq!(parsed.summary, "Battery");
    assert_eq!(parsed.body, "Low power");
    let payload = parsed.into_payload();
    assert_eq!(payload.urgency, Urgency::Critical);
    assert_eq!(payload.summary, "Battery");
}

#[test]
fn notify_send_style_app_name_and_icon_skip() {
    let parsed = NotifySendStyle::parse(&[
        "-a",
        "Terminal",
        "-i",
        "utilities-terminal",
        "--urgency",
        "low",
        "Done",
        "Build finished",
    ]);
    assert_eq!(parsed.app_name, "Terminal");
    assert_eq!(parsed.urgency, Urgency::Low);
    assert_eq!(parsed.summary, "Done");
    assert_eq!(parsed.body, "Build finished");
}


#[test]
fn urgency_hint_kinds() {
    assert_eq!(urgency_from_hint(Some(UrgencyHint::Byte(2))), Urgency::Critical);
    assert_eq!(urgency_from_hint(Some(UrgencyHint::Int(0))), Urgency::Low);
    assert_eq!(urgency_from_hint(Some(UrgencyHint::Int(300))), Urgency::Normal);
    assert_eq!(urgency_from_hint(Some(UrgencyHint::Text(" CRITICAL ".to_string()))), Urgency::Critical);
    assert_eq!(urgency_from_hint(Some(UrgencyHint::Text("bogus".to_string()))), Urgency::Normal);
    assert_eq!(urgency_from_hint(Some(UrgencyHint::Other)), Urgency::Normal);
    assert_eq!(urgency_from_hint(None), Urgency::Normal);
}

#[test]
fn allocated_ids_skip_ids_in_use() {
    let mut state = NotificationServerState::new();
    let first = state.notify(NotificationPayload::new("app", "one", ""));
    let second = state.notify(NotificationPayload::new("app", "two", ""));
    assert_eq!((first, second), (1, 2));
    assert!(state.close(1));
    let next = state.allocate_id();
    assert_ne!(next, 0);
    assert!(state.get(next).is_none());
    assert_eq!(next, 3);
}

#[test]
fn cloned_state_keeps_notifications_and_cursor() {
    let mut state = NotificationServerState::new();
    state.notify(NotificationPayload::new("app", "one", ""));
    let mut copy = state.clone();
    assert_eq!(copy.active_ids(), vec![1]);
    assert_eq!(copy.allocate_id(), 2);
    assert_eq!(state.allocate_id(), 2);
}

#[test]
fn banner_links_drop_replaced_banners() {
    let mut links: BannerLinks<u64> = BannerLinks::new();
    assert!(links.take_replaced(0, 1).is_empty());
    links.link(1, 100);
    assert!(links.take_replaced(0, 2).is_empty());
    links.link(2, 200);
    // Notification 3 replaces notification 1.
    assert_eq!(links.take_replaced(1, 3), vec![100]);
    links.link(3, 300);
    // Replacing in place under the same id.
    assert_eq!(links.take_replaced(3, 3), vec![300]);
    links.link(3, 301);
    assert_eq!(links.unlink(3), Some(301));
    assert_eq!(links.unlink(1), None);
    assert_eq!(links.unlink(2), Some(200));
}

#[test]
fn banner_app_id_defaults_to_service_name() {
    assert_eq!(banner_app_id(""), "org.freedesktop.Notifications");
    assert_eq!(banner_app_id("mail"), "mail");
}
