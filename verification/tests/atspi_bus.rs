use slopos_shell::atspi_bus::{chrome_focus_atspi_path, EmitAccessibleResult};
use slopos_shell::chrome_protocol::ChromeFocusTarget;

#[test]
fn chrome_focus_paths_match_shell_tree_indices() {
    assert_eq!(
        chrome_focus_atspi_path(ChromeFocusTarget::MenuBar),
        "/org/a11y/atspi/accessible/0"
    );
    assert_eq!(
        chrome_focus_atspi_path(ChromeFocusTarget::DesktopIcons),
        "/org/a11y/atspi/accessible/1"
    );
    assert_eq!(
        chrome_focus_atspi_path(ChromeFocusTarget::Dock),
        "/org/a11y/atspi/accessible/2"
    );
    assert_eq!(
        chrome_focus_atspi_path(ChromeFocusTarget::Windows),
        "/org/a11y/atspi/accessible/3"
    );
}

#[test]
fn emit_result_compares_by_fields() {
    let a = EmitAccessibleResult { in_process: true, dbus_emitted: false };
    assert_eq!(a, EmitAccessibleResult { in_process: true, dbus_emitted: false });
    assert_ne!(a, EmitAccessibleResult { in_process: true, dbus_emitted: true });
}
