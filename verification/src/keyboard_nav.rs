//! Keyboard-only navigation helpers for session chrome and window focus.
//!
//! Pure policy used by desktop event handling (Tab / Escape / Enter).
use vstd::prelude::*;

use crate::session_actions::SessionAction;
use crate::chrome_protocol::{focus_index, focus_ring, next_chrome_focus, next_focus, ChromeFocusTarget};
use crate::text::{eq_str, lower, lower_chars, starts_with, starts_with_str, str_chars, trim, trim_chars};

verus! {

/// Keyboard shortcut intents for a11y / keyboard-only users.
#[derive(Clone, Copy, Debug, Eq, PartialEq, Structural)]
pub enum KeyboardNavIntent {
    /// Advance chrome focus region (Tab).
    NextChromeRegion,
    /// Reverse chrome focus (Shift+Tab).
    PrevChromeRegion,
    /// Activate focused chrome / default action (Enter / Space).
    Activate,
    /// Dismiss overlays / clear transient UI (Escape).
    Dismiss,
    /// Cycle windows (Meta+Tab).
    NextWindow,
    /// Lock screen (Meta+L / Ctrl+Meta+L).
    LockScreen,
    /// Log out (Meta+Shift+Q).
    LogOut,
    /// Next workspace (Meta+]).
    NextWorkspace,
    /// Previous workspace (Meta+[).
    PrevWorkspace,
}

/// Intent of a normalized (trimmed, ASCII-lowercased) key name with modifiers.
pub open spec fn nav_intent(k: Seq<char>, shift: bool, meta: bool, control: bool, alt: bool) -> Option<
    KeyboardNavIntent,
> {
    if meta || control || alt {
        if meta && k == "tab"@ {
            Some(KeyboardNavIntent::NextWindow)
        } else if meta && k == "l"@ {
            Some(KeyboardNavIntent::LockScreen)
        } else if meta && shift && k == "q"@ {
            Some(KeyboardNavIntent::LogOut)
        } else if meta && (k == "]"@ || k == "bracketright"@) {
            Some(KeyboardNavIntent::NextWorkspace)
        } else if meta && (k == "["@ || k == "bracketleft"@) {
            Some(KeyboardNavIntent::PrevWorkspace)
        } else {
            None
        }
    } else if k == "tab"@ {
        if shift {
            Some(KeyboardNavIntent::PrevChromeRegion)
        } else {
            Some(KeyboardNavIntent::NextChromeRegion)
        }
    } else if k == "escape"@ || k == "esc"@ {
        Some(KeyboardNavIntent::Dismiss)
    } else if k == "enter"@ || k == "return"@ || k == "space"@ {
        Some(KeyboardNavIntent::Activate)
    } else {
        None
    }
}

/// Pure: map key + modifiers to a nav intent (key name trimmed, ASCII case ignored).
pub fn keyboard_nav_intent(key: &str, shift: bool, meta: bool, control: bool, alt: bool) -> (r:
    Option<KeyboardNavIntent>)
    ensures
        r == nav_intent(lower(trim(key@)), shift, meta, control, alt),
{
    let raw = str_chars(key);
    let t = trim_chars(&raw);
    let k = lower_chars(&t);
    if meta || control || alt {
        if meta && eq_str(&k, "tab") {
            return Some(KeyboardNavIntent::NextWindow);
        }
        if meta && eq_str(&k, "l") {
            return Some(KeyboardNavIntent::LockScreen);
        }
        if meta && shift && eq_str(&k, "q") {
            return Some(KeyboardNavIntent::LogOut);
        }
        if meta && (eq_str(&k, "]") || eq_str(&k, "bracketright")) {
            return Some(KeyboardNavIntent::NextWorkspace);
        }
        if meta && (eq_str(&k, "[") || eq_str(&k, "bracketleft")) {
            return Some(KeyboardNavIntent::PrevWorkspace);
        }
        return None;
    }
    if eq_str(&k, "tab") {
        if shift {
            Some(KeyboardNavIntent::PrevChromeRegion)
        } else {
            Some(KeyboardNavIntent::NextChromeRegion)
        }
    } else if eq_str(&k, "escape") || eq_str(&k, "esc") {
        Some(KeyboardNavIntent::Dismiss)
    } else if eq_str(&k, "enter") || eq_str(&k, "return") || eq_str(&k, "space") {
        Some(KeyboardNavIntent::Activate)
    } else {
        None
    }
}

/// Region before `current` in the focus ring (wraps).
pub open spec fn prev_focus(current: ChromeFocusTarget) -> ChromeFocusTarget {
    focus_ring()[(focus_index(current) + 3) % 4]
}

/// Pure: apply chrome region intent to current focus.
pub fn apply_chrome_nav(current: ChromeFocusTarget, intent: KeyboardNavIntent) -> (r:
    ChromeFocusTarget)
    ensures
        r == match intent {
            KeyboardNavIntent::NextChromeRegion => next_focus(current),
            KeyboardNavIntent::PrevChromeRegion => prev_focus(current),
            _ => current,
        },
{
    match intent {
        KeyboardNavIntent::NextChromeRegion => next_chrome_focus(current),
        KeyboardNavIntent::PrevChromeRegion => prev_chrome_focus(current),
        _ => current,
    }
}

fn prev_chrome_focus(current: ChromeFocusTarget) -> (r: ChromeFocusTarget)
    ensures
        r == prev_focus(current),
{
    match current {
        ChromeFocusTarget::MenuBar => ChromeFocusTarget::Dock,
        ChromeFocusTarget::DesktopIcons => ChromeFocusTarget::MenuBar,
        ChromeFocusTarget::Windows => ChromeFocusTarget::DesktopIcons,
        ChromeFocusTarget::Dock => ChromeFocusTarget::Windows,
    }
}

/// Titles of transient windows that Escape closes.
pub open spec fn dismissable_title(t: Seq<char>) -> bool {
    ||| t == "Force Quit"@
    ||| t == "About SLOPOS-I"@
    ||| t == "Help"@
    ||| t == "Get Info"@
    ||| starts_with(t, "Status:"@)
    ||| starts_with(t, "Dispatch:"@)
}

/// Whether Escape should close a transient UI (status / force-quit / about).
pub fn is_dismissable_window_title(title: &str) -> (r: bool)
    ensures
        r == dismissable_title(title@),
{
    let t = str_chars(title);
    eq_str(&t, "Force Quit") || eq_str(&t, "About SLOPOS-I") || eq_str(&t, "Help") || eq_str(
        &t,
        "Get Info",
    ) || starts_with_str(&t, "Status:") || starts_with_str(&t, "Dispatch:")
}

/// Tab and Shift+Tab undo each other on the chrome regions.
pub proof fn law_chrome_nav_next_prev_inverse(t: ChromeFocusTarget)
    ensures
        prev_focus(next_focus(t)) == t,
        next_focus(prev_focus(t)) == t,
{
}

/// Four Tabs visit every chrome region once and come back.
pub proof fn law_chrome_focus_cycle(t: ChromeFocusTarget)
    ensures
        next_focus(next_focus(next_focus(next_focus(t)))) == t,
        t != next_focus(t),
        t != next_focus(next_focus(t)),
        t != next_focus(next_focus(next_focus(t))),
        next_focus(t) != next_focus(next_focus(t)),
        next_focus(t) != next_focus(next_focus(next_focus(t))),
        next_focus(next_focus(t)) != next_focus(next_focus(next_focus(t))),
{
}

/// Keys the desktop's keyboard handling tells apart.
#[derive(Clone, Copy, Debug, Eq, PartialEq, Structural)]
pub enum ShellKey {
    Tab,
    Escape,
    Enter,
    Space,
    L,
    Q,
    LeftBracket,
    RightBracket,
    W,
    Other,
}

/// Name under which a key is looked up for a navigation intent (empty for
/// keys that have none).
pub open spec fn shell_key_name(k: ShellKey) -> Seq<char> {
    match k {
        ShellKey::Tab => "tab"@,
        ShellKey::Escape => "escape"@,
        ShellKey::Enter => "enter"@,
        ShellKey::Space => "space"@,
        ShellKey::L => "l"@,
        ShellKey::Q => "q"@,
        ShellKey::LeftBracket => "["@,
        ShellKey::RightBracket => "]"@,
        _ => Seq::empty(),
    }
}

/// Navigation intent of a key press.
pub open spec fn key_intent(k: ShellKey, shift: bool, meta: bool, control: bool, alt: bool) -> Option<
    KeyboardNavIntent,
> {
    if shell_key_name(k).len() == 0 {
        None
    } else {
        nav_intent(shell_key_name(k), shift, meta, control, alt)
    }
}

/// A step of the desktop's keyboard handling.
#[derive(Clone, Copy, Debug, Eq, PartialEq, Structural)]
pub enum ShellKeyCommand {
    /// Move chrome focus (the intent is next or previous region).
    MoveChromeFocus(KeyboardNavIntent),
    /// Close the topmost dismissable window, if there is one.
    DismissTopmostWindow,
    /// Run the focused chrome's primary action, if it has one.
    ActivateChromeFocus,
    Session(SessionAction),
    NextWorkspace,
    PrevWorkspace,
    FocusNextWindow,
    /// Close the active window, if there is one.
    CloseActiveWindow,
    /// Run the menu action bound to the key, if any.
    MenuShortcut,
}

/// What follows the navigation intents: Meta+Tab cycles windows, Meta+W
/// closes the active one, then menu shortcuts.
pub open spec fn key_fallback(k: ShellKey, meta: bool) -> Seq<ShellKeyCommand> {
    if meta && k == ShellKey::Tab {
        seq![ShellKeyCommand::FocusNextWindow]
    } else if meta && k == ShellKey::W {
        seq![ShellKeyCommand::CloseActiveWindow, ShellKeyCommand::MenuShortcut]
    } else {
        seq![ShellKeyCommand::MenuShortcut]
    }
}

/// The steps the desktop tries, in order, for a key press that no overlay
/// or the menu bar took; the first step that applies handles the key.
pub open spec fn key_command_steps(k: ShellKey, shift: bool, meta: bool, control: bool, alt: bool) -> Seq<
    ShellKeyCommand,
> {
    match key_intent(k, shift, meta, control, alt) {
        Some(KeyboardNavIntent::NextChromeRegion) => seq![
            ShellKeyCommand::MoveChromeFocus(KeyboardNavIntent::NextChromeRegion),
        ],
        Some(KeyboardNavIntent::PrevChromeRegion) => seq![
            ShellKeyCommand::MoveChromeFocus(KeyboardNavIntent::PrevChromeRegion),
        ],
        Some(KeyboardNavIntent::Dismiss) => seq![ShellKeyCommand::DismissTopmostWindow] + key_fallback(
            k,
            meta,
        ),
        Some(KeyboardNavIntent::Activate) => seq![ShellKeyCommand::ActivateChromeFocus]
            + key_fallback(k, meta),
        Some(KeyboardNavIntent::LockScreen) => seq![ShellKeyCommand::Session(SessionAction::Lock)],
        Some(KeyboardNavIntent::LogOut) => seq![ShellKeyCommand::Session(SessionAction::Logout)],
        Some(KeyboardNavIntent::NextWorkspace) => seq![ShellKeyCommand::NextWorkspace],
        Some(KeyboardNavIntent::PrevWorkspace) => seq![ShellKeyCommand::PrevWorkspace],
        _ => key_fallback(k, meta),
    }
}

fn key_intent_exec(k: ShellKey, shift: bool, meta: bool, control: bool, alt: bool) -> (r: Option<
    KeyboardNavIntent,
>)
    ensures
        r == key_intent(k, shift, meta, control, alt),
{
    proof {
        reveal_strlit("tab");
        reveal_strlit("escape");
        reveal_strlit("esc");
        reveal_strlit("enter");
        reveal_strlit("return");
        reveal_strlit("space");
        reveal_strlit("l");
        reveal_strlit("q");
        reveal_strlit("[");
        reveal_strlit("]");
        reveal_strlit("bracketleft");
        reveal_strlit("bracketright");
        assert("tab"@ =~= seq!['t', 'a', 'b']);
        assert("escape"@ =~= seq!['e', 's', 'c', 'a', 'p', 'e']);
        assert("esc"@ =~= seq!['e', 's', 'c']);
        assert("enter"@ =~= seq!['e', 'n', 't', 'e', 'r']);
        assert("return"@ =~= seq!['r', 'e', 't', 'u', 'r', 'n']);
        assert("space"@ =~= seq!['s', 'p', 'a', 'c', 'e']);
        assert("l"@ =~= seq!['l']);
        assert("q"@ =~= seq!['q']);
        assert("["@ =~= seq!['[']);
        assert("]"@ =~= seq![']']);
        assert("l"@ != "q"@ && "l"@ != "["@ && "l"@ != "]"@ && "q"@ != "["@ && "q"@ != "]"@
            && "["@ != "]"@) by {
            assert("l"@[0] != "q"@[0] && "l"@[0] != "["@[0] && "l"@[0] != "]"@[0]);
            assert("q"@[0] != "["@[0] && "q"@[0] != "]"@[0] && "["@[0] != "]"@[0]);
        }
        assert("escape"@ != "return"@) by {
            assert("escape"@[0] != "return"@[0]);
        }
        assert("enter"@ != "space"@) by {
            assert("enter"@[0] != "space"@[0]);
        }
    }
    if k == ShellKey::W || k == ShellKey::Other {
        return None;
    }
    if meta || control || alt {
        if meta && k == ShellKey::Tab {
            Some(KeyboardNavIntent::NextWindow)
        } else if meta && k == ShellKey::L {
            Some(KeyboardNavIntent::LockScreen)
        } else if meta && shift && k == ShellKey::Q {
            Some(KeyboardNavIntent::LogOut)
        } else if meta && k == ShellKey::RightBracket {
            Some(KeyboardNavIntent::NextWorkspace)
        } else if meta && k == ShellKey::LeftBracket {
            Some(KeyboardNavIntent::PrevWorkspace)
        } else {
            None
        }
    } else if k == ShellKey::Tab {
        if shift {
            Some(KeyboardNavIntent::PrevChromeRegion)
        } else {
            Some(KeyboardNavIntent::NextChromeRegion)
        }
    } else if k == ShellKey::Escape {
        Some(KeyboardNavIntent::Dismiss)
    } else if k == ShellKey::Enter || k == ShellKey::Space {
        Some(KeyboardNavIntent::Activate)
    } else {
        None
    }
}

fn push_key_fallback(out: &mut Vec<ShellKeyCommand>, k: ShellKey, meta: bool)
    ensures
        final(out)@ == old(out)@ + key_fallback(k, meta),
{
    if meta && k == ShellKey::Tab {
        out.push(ShellKeyCommand::FocusNextWindow);
    } else if meta && k == ShellKey::W {
        out.push(ShellKeyCommand::CloseActiveWindow);
        out.push(ShellKeyCommand::MenuShortcut);
    } else {
        out.push(ShellKeyCommand::MenuShortcut);
    }
    assert(out@ =~= old(out)@ + key_fallback(k, meta));
}

/// The steps the desktop tries, in order, for a key press that no overlay
/// or the menu bar took (the first step that applies handles the key).
pub fn key_command_steps_for(k: ShellKey, shift: bool, meta: bool, control: bool, alt: bool) -> (r:
    Vec<ShellKeyCommand>)
    ensures
        r@ == key_command_steps(k, shift, meta, control, alt),
{
    let mut out: Vec<ShellKeyCommand> = Vec::new();
    match key_intent_exec(k, shift, meta, control, alt) {
        Some(KeyboardNavIntent::NextChromeRegion) => {
            out.push(ShellKeyCommand::MoveChromeFocus(KeyboardNavIntent::NextChromeRegion));
        },
        Some(KeyboardNavIntent::PrevChromeRegion) => {
            out.push(ShellKeyCommand::MoveChromeFocus(KeyboardNavIntent::PrevChromeRegion));
        },
        Some(KeyboardNavIntent::Dismiss) => {
            out.push(ShellKeyCommand::DismissTopmostWindow);
            push_key_fallback(&mut out, k, meta);
        },
        Some(KeyboardNavIntent::Activate) => {
            out.push(ShellKeyCommand::ActivateChromeFocus);
            push_key_fallback(&mut out, k, meta);
        },
        Some(KeyboardNavIntent::LockScreen) => {
            out.push(ShellKeyCommand::Session(SessionAction::Lock));
        },
        Some(KeyboardNavIntent::LogOut) => {
            out.push(ShellKeyCommand::Session(SessionAction::Logout));
        },
        Some(KeyboardNavIntent::NextWorkspace) => {
            out.push(ShellKeyCommand::NextWorkspace);
        },
        Some(KeyboardNavIntent::PrevWorkspace) => {
            out.push(ShellKeyCommand::PrevWorkspace);
        },
        _ => {
            push_key_fallback(&mut out, k, meta);
        },
    }
    assert(out@ =~= key_command_steps(k, shift, meta, control, alt));
    out
}

} // verus!
