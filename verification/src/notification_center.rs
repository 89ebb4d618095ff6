//! Priority of an in-process notification banner.
use vstd::prelude::*;

verus! {

/// Banner priority in the shell's notification center.
#[derive(Clone, Copy, Debug, Eq, PartialEq, Structural)]
pub enum NotificationPriority {
    Low,
    Normal,
    High,
    Critical,
}

} // verus!
