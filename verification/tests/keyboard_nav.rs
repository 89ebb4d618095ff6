use slopos_shell::chrome_protocol::ChromeFocusTarget;
use slopos_shell::keyboard_nav::{
    apply_chrome_nav, is_dismissable_window_title, key_command_steps_for, keyboard_nav_intent,
    KeyboardNavIntent, ShellKey, ShellKeyCommand,
};
use slopos_shell::session_actions::SessionAction;

#[test]
fn tab_and_shift_tab_intents() {
    assert_eq!(
        keyboard_nav_intent("Tab", false, false, false, false),
        Some(KeyboardNavIntent::NextChromeRegion)
    );
    assert_eq!(
        keyboard_nav_intent("tab", true, false, false, false),
        Some(KeyboardNavIntent::PrevChromeRegion)
    );
    assert_eq!(
        keyboard_nav_intent("Tab", false, true, false, false),
        Some(KeyboardNavIntent::NextWindow)
    );
}

#[test]
fn escape_and_activate() {
    assert_eq!(
        keyboard_nav_intent("Escape", false, false, false, false),
        Some(KeyboardNavIntent::Dismiss)
    );
    assert_eq!(
        keyboard_nav_intent("Enter", false, false, false, false),
        Some(KeyboardNavIntent::Activate)
    );
    assert_eq!(
        keyboard_nav_intent("Space", false, false, false, false),
        Some(KeyboardNavIntent::Activate)
    );
}

#[test]
fn lock_logout_workspace_intents() {
    assert_eq!(
        keyboard_nav_intent("l", false, true, false, false),
        Some(KeyboardNavIntent::LockScreen)
    );
    assert_eq!(
        keyboard_nav_intent("q", true, true, false, false),
        Some(KeyboardNavIntent::LogOut)
    );
    assert_eq!(
        keyboard_nav_intent("]", false, true, false, false),
        Some(KeyboardNavIntent::NextWorkspace)
    );
    assert_eq!(
        keyboard_nav_intent("[", false, true, false, false),
        Some(KeyboardNavIntent::PrevWorkspace)
    );
}

#[test]
fn apply_chrome_nav_cycles_both_ways() {
    let mut f = ChromeFocusTarget::MenuBar;
    f = apply_chrome_nav(f, KeyboardNavIntent::NextChromeRegion);
    assert_eq!(f, ChromeFocusTarget::DesktopIcons);
    f = apply_chrome_nav(f, KeyboardNavIntent::PrevChromeRegion);
    assert_eq!(f, ChromeFocusTarget::MenuBar);
    f = apply_chrome_nav(f, KeyboardNavIntent::PrevChromeRegion);
    assert_eq!(f, ChromeFocusTarget::Dock);
}

#[test]
fn dismissable_titles() {
    assert!(is_dismissable_window_title("Force Quit"));
    assert!(is_dismissable_window_title("Status: done"));
    assert!(!is_dismissable_window_title("Finder"));
}

#[test]
fn key_steps_for_chrome_navigation() {
    assert_eq!(
        key_command_steps_for(ShellKey::Tab, false, false, false, false),
        vec![ShellKeyCommand::MoveChromeFocus(KeyboardNavIntent::NextChromeRegion)]
    );
    assert_eq!(
        key_command_steps_for(ShellKey::Tab, true, false, false, false),
        vec![ShellKeyCommand::MoveChromeFocus(KeyboardNavIntent::PrevChromeRegion)]
    );
    assert_eq!(
        key_command_steps_for(ShellKey::Escape, false, false, false, false),
        vec![ShellKeyCommand::DismissTopmostWindow, ShellKeyCommand::MenuShortcut]
    );
    assert_eq!(
        key_command_steps_for(ShellKey::Enter, false, false, false, false),
        vec![ShellKeyCommand::ActivateChromeFocus, ShellKeyCommand::MenuShortcut]
    );
}

#[test]
fn key_steps_for_meta_shortcuts() {
    assert_eq!(
        key_command_steps_for(ShellKey::Tab, false, true, false, false),
        vec![ShellKeyCommand::FocusNextWindow]
    );
    assert_eq!(
        key_command_steps_for(ShellKey::L, false, true, false, false),
        vec![ShellKeyCommand::Session(SessionAction::Lock)]
    );
    assert_eq!(
        key_command_steps_for(ShellKey::Q, true, true, false, false),
        vec![ShellKeyCommand::Session(SessionAction::Logout)]
    );
    assert_eq!(
        key_command_steps_for(ShellKey::RightBracket, false, true, false, false),
        vec![ShellKeyCommand::NextWorkspace]
    );
    assert_eq!(
        key_command_steps_for(ShellKey::LeftBracket, false, true, false, false),
        vec![ShellKeyCommand::PrevWorkspace]
    );
    assert_eq!(
        key_command_steps_for(ShellKey::W, false, true, false, false),
        vec![ShellKeyCommand::CloseActiveWindow, ShellKeyCommand::MenuShortcut]
    );
    assert_eq!(
        key_command_steps_for(ShellKey::Q, false, true, false, false),
        vec![ShellKeyCommand::MenuShortcut]
    );
    assert_eq!(
        key_command_steps_for(ShellKey::Other, false, false, true, false),
        vec![ShellKeyCommand::MenuShortcut]
    );
}
