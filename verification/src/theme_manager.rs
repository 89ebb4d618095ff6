//! Theme names the shell can select.
use vstd::prelude::*;

verus! {

/// A named shell colour theme.
#[derive(Clone, Copy, Debug, Eq, PartialEq, Structural)]
pub enum ThemeName {
    Classic,
    Dracula,
    Solarized,
    HighContrast,
}

} // verus!
