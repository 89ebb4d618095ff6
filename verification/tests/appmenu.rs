use slopos_shell::appmenu::{
    exporter_from_properties, parse_get_layout_reply, parse_layout, property_text,
    status_for_exporter, valid_bus_name, valid_object_path, AppMenuImportError, AppMenuItemKind,
    AppMenuStatus, WireValue,
};

/// A `v`-wrapped string property value, as a `a{sv}` dictionary holds it.
fn text(s: &str) -> WireValue {
    WireValue::Variant(Box::new(WireValue::Str(s.to_string())))
}

fn flag(b: bool) -> WireValue {
    WireValue::Variant(Box::new(WireValue::Bool(b)))
}

/// Layout node fields `(ia{sv}av)`; entries are given in key order, as the
/// dictionary iterates them.
fn node(id: i32, entries: Vec<(&str, WireValue)>, children: Vec<Vec<WireValue>>) -> Vec<WireValue> {
    let dict = entries
        .into_iter()
        .map(|(k, v)| (WireValue::Str(k.to_string()), v))
        .collect();
    let array = children
        .into_iter()
        .map(|c| WireValue::Variant(Box::new(WireValue::Structure(c))))
        .collect();
    vec![WireValue::I32(id), WireValue::Dict(dict), WireValue::Array(array)]
}

#[test]
fn accepts_only_session_bus_names() {
    assert!(valid_bus_name(":1.42"));
    assert!(valid_bus_name(":1.2.3"));
    assert!(valid_bus_name(":1foo.42"));
    assert!(!valid_bus_name("org.example.App"));
    assert!(!valid_bus_name(":"));
    assert!(!valid_bus_name(":1foo"));
    assert!(!valid_bus_name(":1."));
    assert!(!valid_bus_name(":1..2"));
    assert!(!valid_bus_name(":1.f?"));
    assert!(!valid_bus_name(":1 42"));
    assert!(!valid_bus_name(""));
}

#[test]
fn accepts_dbus_object_paths_without_invalid_elements() {
    assert!(valid_object_path("/"));
    assert!(valid_object_path("/com/canonical/menu"));
    assert!(valid_object_path("/org/slopos_1/menu2"));
    assert!(!valid_object_path("com/canonical/menu"));
    assert!(!valid_object_path("/com//menu"));
    assert!(!valid_object_path("/com/1menu"));
    assert!(!valid_object_path("/com/menu-name"));
    assert!(!valid_object_path("/com/example/menu\n"));
}

#[test]
fn parses_supported_items_without_inventing_commands() {
    let child = node(3, vec![("enabled", flag(false)), ("label", text("Undo"))], vec![]);
    let root = node(
        0,
        vec![],
        vec![
            node(1, vec![("label", text("File"))], vec![]),
            node(2, vec![("type", text("separator"))], vec![]),
            node(
                4,
                vec![("children-display", text("submenu")), ("label", text("Edit"))],
                vec![child],
            ),
        ],
    );
    let layout = parse_layout(7, &root).expect("valid DBusMenu layout");
    assert_eq!(layout.revision, 7);
    assert_eq!(layout.items.len(), 3);
    assert_eq!(layout.items[0].label, "File");
    assert_eq!(layout.items[0].kind, AppMenuItemKind::Standard);
    assert_eq!(layout.items[1].kind, AppMenuItemKind::Separator);
    assert_eq!(layout.items[2].kind, AppMenuItemKind::Submenu);
    assert_eq!(layout.items[2].children[0].label, "Undo");
    assert!(!layout.items[2].children[0].enabled);
}

#[test]
fn rejects_unsupported_item_type() {
    let root = node(0, vec![], vec![node(1, vec![("type", text("x-vendor-command"))], vec![])]);
    assert!(matches!(
        parse_layout(1, &root),
        Err(AppMenuImportError::InvalidLayout(message)) if message.contains("unsupported item type")
    ));
}

#[test]
fn rejects_control_characters_in_labels() {
    let root = node(0, vec![], vec![node(1, vec![("label", text("Bad\nLabel"))], vec![])]);
    assert!(matches!(
        parse_layout(1, &root),
        Err(AppMenuImportError::InvalidLayout(message)) if message.contains("control characters")
    ));
}

#[test]
fn unsupported_item_type_message_quotes_the_type() {
    let root = node(0, vec![], vec![node(1, vec![("type", text("x-vendor"))], vec![])]);
    match parse_layout(1, &root) {
        Err(AppMenuImportError::InvalidLayout(message)) => {
            assert_eq!(message, "unsupported item type \"x-vendor\"")
        }
        _ => panic!("expected an invalid layout"),
    }
}

#[test]
fn layout_limits_are_enforced() {
    // Depth: root (0) → 1 → 2 → 3 → 4 → 5 is one level too deep.
    let mut n = node(9, vec![], vec![]);
    for id in (1..=5).rev() {
        n = node(id, vec![("children-display", text("submenu"))], vec![n]);
    }
    let root = node(0, vec![], vec![n]);
    assert!(matches!(
        parse_layout(1, &root),
        Err(AppMenuImportError::LimitExceeded("layout depth"))
    ));

    // More than 256 children of one node.
    let many: Vec<Vec<WireValue>> = (0..257).map(|i| node(i + 1, vec![], vec![])).collect();
    let root = node(0, vec![], many);
    assert!(matches!(
        parse_layout(1, &root),
        Err(AppMenuImportError::LimitExceeded("children"))
    ));

    // 256 leaves plus the root are 257 items in all.
    let leaves: Vec<Vec<WireValue>> = (0..256).map(|i| node(i + 1, vec![], vec![])).collect();
    let root = node(0, vec![], leaves);
    assert!(matches!(
        parse_layout(1, &root),
        Err(AppMenuImportError::LimitExceeded("item count"))
    ));

    // A label over 256 characters.
    let long = "x".repeat(257);
    let root = node(0, vec![], vec![node(1, vec![("label", text(&long))], vec![])]);
    assert!(matches!(
        parse_layout(1, &root),
        Err(AppMenuImportError::LimitExceeded("label length"))
    ));
}

#[test]
fn malformed_nodes_fail_closed() {
    let root = vec![WireValue::I32(0), WireValue::Dict(vec![])];
    assert!(matches!(parse_layout(1, &root), Err(AppMenuImportError::InvalidLayout(_))));
    let root = vec![WireValue::U32(0), WireValue::Dict(vec![]), WireValue::Array(vec![])];
    assert!(matches!(
        parse_layout(1, &root),
        Err(AppMenuImportError::InvalidLayout(m)) if m == "item id is not int32"
    ));
    let bad_prop = node(0, vec![], vec![node(1, vec![("visible", text("yes"))], vec![])]);
    assert!(matches!(
        parse_layout(1, &bad_prop),
        Err(AppMenuImportError::InvalidLayout(m)) if m == "property visible is not bool"
    ));
    let sep_with_child = node(
        0,
        vec![],
        vec![node(1, vec![("type", text("separator"))], vec![node(2, vec![], vec![])])],
    );
    assert!(matches!(
        parse_layout(1, &sep_with_child),
        Err(AppMenuImportError::InvalidLayout(m)) if m == "separator has children"
    ));
    let no_submenu = node(0, vec![], vec![node(1, vec![], vec![node(2, vec![], vec![])])]);
    assert!(matches!(
        parse_layout(1, &no_submenu),
        Err(AppMenuImportError::InvalidLayout(m)) if m == "children are missing children-display=submenu"
    ));
}

#[test]
fn get_layout_reply_shape_is_checked() {
    let root = node(0, vec![], vec![node(1, vec![("label", text("File"))], vec![])]);
    let reply = vec![WireValue::U32(5), WireValue::Structure(root)];
    let layout = parse_get_layout_reply(&reply).expect("valid reply");
    assert_eq!(layout.revision, 5);
    assert_eq!(layout.items[0].label, "File");
    assert!(matches!(
        parse_get_layout_reply(&vec![WireValue::U32(5)]),
        Err(AppMenuImportError::InvalidLayout(_))
    ));
    assert!(matches!(
        parse_get_layout_reply(&vec![WireValue::I32(5), WireValue::Other]),
        Err(AppMenuImportError::InvalidLayout(m)) if m == "revision is not uint32"
    ));
}

#[test]
fn exporter_needs_valid_name_and_path() {
    let x = exporter_from_properties(
        7,
        Some(":1.42".to_string()),
        None,
        Some("/com/canonical/menu".to_string()),
    )
    .expect("menubar path used when the app-menu path is absent");
    assert_eq!(x.window_id, 7);
    assert_eq!(x.object_path, "/com/canonical/menu");
    assert!(exporter_from_properties(7, Some("org.example".to_string()), Some("/m".to_string()), None).is_none());
    assert!(exporter_from_properties(7, None, Some("/m".to_string()), None).is_none());
    assert_eq!(status_for_exporter(None).0, AppMenuStatus::NoExporter);
    assert_eq!(status_for_exporter(Some(x)).0, AppMenuStatus::ExporterDetected);
    assert_eq!(property_text("\0 :1.42 \0\0").as_deref(), Some(":1.42"));
    assert_eq!(property_text("\0\0"), None);
}
