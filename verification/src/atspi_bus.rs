//! Accessibility event addressing for the shell chrome: which structural
//! AT-SPI object a focused chrome region is, and what a publish reports.
use vstd::prelude::*;

use crate::chrome_protocol::ChromeFocusTarget;
use crate::text::{chars_to_string, dec, push_decimal, str_chars};

verus! {

/// Result of a best-effort accessibility event publish.
#[derive(Debug, Clone, Copy, PartialEq, Eq, Structural)]
pub struct EmitAccessibleResult {
    /// The event was queued on the in-process bus.
    pub in_process: bool,
    /// The D-Bus signal was sent on the registration connection.
    pub dbus_emitted: bool,
}

/// Index of a chrome region in the shell's accessibility tree: menu bar
/// `0`, desktop `1`, dock `2`, window frame `3`.
pub open spec fn chrome_focus_index(target: ChromeFocusTarget) -> nat {
    match target {
        ChromeFocusTarget::MenuBar => 0,
        ChromeFocusTarget::DesktopIcons => 1,
        ChromeFocusTarget::Dock => 2,
        ChromeFocusTarget::Windows => 3,
    }
}

/// Object path of the accessible at an index of the shell tree.
pub open spec fn atspi_object_path(index: nat) -> Seq<char> {
    "/org/a11y/atspi/accessible/"@ + dec(index)
}

/// The AT-SPI object path of a focused chrome region.
pub fn chrome_focus_atspi_path(target: ChromeFocusTarget) -> (r: String)
    ensures
        r@ == atspi_object_path(chrome_focus_index(target)),
{
    let index: u64 = match target {
        ChromeFocusTarget::MenuBar => 0,
        ChromeFocusTarget::DesktopIcons => 1,
        ChromeFocusTarget::Dock => 2,
        ChromeFocusTarget::Windows => 3,
    };
    let mut v = str_chars("/org/a11y/atspi/accessible/");
    push_decimal(&mut v, index);
    chars_to_string(&v)
}

} // verus!
