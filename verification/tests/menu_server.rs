use slopos_shell::i18n::LocaleId;
use slopos_shell::menu_server::{
    action_label_message_key, battery_status_label, default_workspace_items,
    locale_label_for_action, network_status_label, status_items_for, workspace_shortcut_digit,
    STATUS_REFRESH_INTERVAL_SECS, add_status_item, StatusItem,
};

#[test]
fn status_labels_are_pure() {
    assert_eq!(battery_status_label(Some(87)), "🔋 87%");
    assert_eq!(battery_status_label(None), "🔋 —");
    assert_eq!(
        network_status_label(true, Some("HomeWiFi"), "Full"),
        "📶 HomeWiFi"
    );
    assert_eq!(network_status_label(true, None, "Limited"), "📶 Limited");
    assert_eq!(network_status_label(false, None, "Unavailable"), "📶 —");
    assert_eq!(STATUS_REFRESH_INTERVAL_SECS, 5);
}

#[test]
fn empty_network_name_shows_state() {
    assert_eq!(network_status_label(true, Some(""), "Connecting"), "📶 Connecting");
    assert_eq!(battery_status_label(Some(0)), "🔋 0%");
}

#[test]
fn session_actions_relabel_by_locale() {
    assert_eq!(action_label_message_key("shell.logout"), Some("menu.log_out"));
    assert_eq!(action_label_message_key("shell.poweroff"), Some("menu.power_off"));
    assert_eq!(action_label_message_key("file.open"), None);
    let fr = LocaleId::parse("fr_FR.UTF-8");
    assert_eq!(
        locale_label_for_action("shell.lock", &fr),
        Some("Verrouiller l’écran".to_string())
    );
    let en = LocaleId::parse("en_US");
    assert_eq!(locale_label_for_action("shell.about", &en), Some("About SLOPOS-I".to_string()));
    assert_eq!(locale_label_for_action("workspace.next", &en), None);
}

#[test]
fn default_window_menu_spaces() {
    let items = default_workspace_items();
    assert_eq!(items.len(), 8);
    assert_eq!(items[0], (0, "Desktop 1".to_string()));
    assert_eq!(items[7], (7, "Desktop 8".to_string()));
    assert_eq!(workspace_shortcut_digit(0), Some('1'));
    assert_eq!(workspace_shortcut_digit(7), Some('8'));
    assert_eq!(workspace_shortcut_digit(8), None);
}

#[test]
fn status_items_from_readings() {
    let items = status_items_for(Some(80), None, true, Some("Home Wi-Fi"), "connected");
    let ids: Vec<&str> = items.iter().map(|i| i.id.as_str()).collect();
    assert_eq!(ids, vec!["battery", "volume", "network"]);
    assert_eq!(items[0].label, "🔋 80%");
    assert_eq!(items[1].label, "🔊 —");
    assert_eq!(items[2].label, "📶 Home Wi-Fi");
    assert_eq!(items[2].priority, 20);
    assert_eq!(items[1].icon.as_deref(), Some("volume"));
}

fn status_item(id: &str, priority: i32) -> StatusItem {
    StatusItem { id: id.to_string(), label: id.to_string(), icon: None, priority }
}

fn status_ids(items: &[StatusItem]) -> Vec<String> {
    items.iter().map(|i| i.id.clone()).collect()
}

#[test]
fn add_status_item_orders_by_descending_priority() {
    let mut items = Vec::new();
    add_status_item(&mut items, status_item("battery", 10));
    add_status_item(&mut items, status_item("network", 20));
    add_status_item(&mut items, status_item("volume", 15));
    assert_eq!(status_ids(&items), vec!["network", "volume", "battery"]);
}

#[test]
fn add_status_item_keeps_order_of_equal_priorities() {
    let mut items = Vec::new();
    add_status_item(&mut items, status_item("a", 5));
    add_status_item(&mut items, status_item("b", 5));
    add_status_item(&mut items, status_item("c", 7));
    add_status_item(&mut items, status_item("d", 5));
    assert_eq!(status_ids(&items), vec!["c", "a", "b", "d"]);
}

#[test]
fn add_status_item_sorts_unordered_items() {
    let mut items = vec![status_item("low", 1), status_item("high", 9)];
    add_status_item(&mut items, status_item("mid", 4));
    assert_eq!(status_ids(&items), vec!["high", "mid", "low"]);
}
