//! Accessibility preference helpers for contrast and reduced motion.
//!
//! Preferences are parsed from flat `key=value` lines in `settings.conf`.
use vstd::prelude::*;

use crate::conf::{conf_bool, conf_bool_exec, conf_entries, parse_conf_entries};
use crate::text::{eq_str, str_chars, trim, trim_chars};
use crate::theme_manager::ThemeName;

verus! {

/// Whether UI motion/animation should run at full duration or be reduced.
#[derive(Debug, Clone, Copy, PartialEq, Eq, Structural)]
pub enum MotionPreference {
    /// Normal animation durations.
    Full,
    /// Prefer minimal / zero motion.
    Reduced,
}

impl Default for MotionPreference {
    fn default() -> (r: Self)
        ensures
            r == MotionPreference::Full,
    {
        MotionPreference::Full
    }
}

/// Contrast preference for visual presentation.
#[derive(Debug, Clone, Copy, PartialEq, Eq, Structural)]
pub enum ContrastPreference {
    /// Use the user-selected theme as-is.
    Normal,
    /// Force the high-contrast theme palette.
    High,
}

impl Default for ContrastPreference {
    fn default() -> (r: Self)
        ensures
            r == ContrastPreference::Normal,
    {
        ContrastPreference::Normal
    }
}

/// Accessibility preferences derived from settings.
#[derive(Debug, Clone, Copy, PartialEq, Eq, Structural)]
pub struct A11yPrefs {
    pub motion: MotionPreference,
    pub contrast: ContrastPreference,
}

impl Default for A11yPrefs {
    fn default() -> (r: Self)
        ensures
            r == (A11yPrefs { motion: MotionPreference::Full, contrast: ContrastPreference::Normal }),
    {
        A11yPrefs { motion: MotionPreference::Full, contrast: ContrastPreference::Normal }
    }
}

/// Preferences after one settings entry.
pub open spec fn a11y_apply(p: A11yPrefs, e: (Seq<char>, Seq<char>)) -> A11yPrefs {
    let (k, v) = e;
    if k == "reduced_motion"@ || k == "reduce_motion"@ {
        A11yPrefs {
            motion: if conf_bool(trim(v)) {
                MotionPreference::Reduced
            } else {
                MotionPreference::Full
            },
            ..p
        }
    } else if k == "high_contrast"@ || k == "increase_contrast"@ {
        A11yPrefs {
            contrast: if conf_bool(trim(v)) {
                ContrastPreference::High
            } else {
                ContrastPreference::Normal
            },
            ..p
        }
    } else {
        p
    }
}

/// Preferences after a sequence of settings entries, applied in order.
pub open spec fn a11y_apply_all(p: A11yPrefs, es: Seq<(Seq<char>, Seq<char>)>) -> A11yPrefs
    decreases es.len(),
{
    if es.len() == 0 {
        p
    } else {
        a11y_apply(a11y_apply_all(p, es.drop_last()), es.last())
    }
}

impl A11yPrefs {
    /// Construct prefs from motion and contrast values.
    pub fn new(motion: MotionPreference, contrast: ContrastPreference) -> (r: Self)
        ensures
            r.motion == motion,
            r.contrast == contrast,
    {
        A11yPrefs { motion, contrast }
    }

    /// Parse prefs from flat `key=value` settings text: `reduced_motion` (or
    /// `reduce_motion`) and `high_contrast` (or `increase_contrast`) with a
    /// settings boolean; the last such entry wins; defaults Full / Normal.
    pub fn parse_from_conf(text: &str) -> (r: Self)
        ensures
            r == a11y_apply_all(
                A11yPrefs { motion: MotionPreference::Full, contrast: ContrastPreference::Normal },
                conf_entries(text@),
            ),
    {
        let entries = parse_conf_entries(text);
        let ghost es = conf_entries(text@);
        let ghost d = A11yPrefs {
            motion: MotionPreference::Full,
            contrast: ContrastPreference::Normal,
        };
        let mut prefs = A11yPrefs::default();
        let mut i: usize = 0;
        assert(es.take(0) =~= Seq::<(Seq<char>, Seq<char>)>::empty());
        while i < entries.len()
            invariant
                es == conf_entries(text@),
                entries@.len() == es.len(),
                forall|k: int|
                    0 <= k < entries@.len() ==> (#[trigger] entries@[k]).key@ == es[k].0
                        && entries@[k].value@ == es[k].1,
                i <= entries@.len(),
                prefs == a11y_apply_all(d, es.take(i as int)),
            decreases entries@.len() - i,
        {
            let e = &entries[i];
            assert(es.take(i + 1).drop_last() =~= es.take(i as int));
            assert(es.take(i + 1).last() == es[i as int]);
            if eq_str(&e.key, "reduced_motion") || eq_str(&e.key, "reduce_motion") {
                prefs.motion = if parse_conf_bool(&e.value) {
                    MotionPreference::Reduced
                } else {
                    MotionPreference::Full
                };
            } else if eq_str(&e.key, "high_contrast") || eq_str(&e.key, "increase_contrast") {
                prefs.contrast = if parse_conf_bool(&e.value) {
                    ContrastPreference::High
                } else {
                    ContrastPreference::Normal
                };
            }
            i = i + 1;
        }
        assert(es.take(es.len() as int) =~= es);
        prefs
    }
}

/// Parse a settings.conf boolean (`true`/`1`/`yes`/`on`, case-insensitive).
fn parse_conf_bool(value: &[char]) -> (r: bool)
    ensures
        r == conf_bool(trim(value@)),
{
    let t = trim_chars(value);
    conf_bool_exec(&t)
}

/// Apply contrast prefs to a theme selection: high contrast forces the
/// high-contrast theme, otherwise `current_theme` is kept.
pub fn apply_a11y_prefs_to_theme_name(prefs: A11yPrefs, current_theme: ThemeName) -> (r: ThemeName)
    ensures
        r == match prefs.contrast {
            ContrastPreference::High => ThemeName::HighContrast,
            ContrastPreference::Normal => current_theme,
        },
{
    match prefs.contrast {
        ContrastPreference::High => ThemeName::HighContrast,
        ContrastPreference::Normal => current_theme,
    }
}

/// Effective animation duration in milliseconds: `0` under reduced motion,
/// otherwise `base_ms`.
pub fn effective_animation_ms(prefs: A11yPrefs, base_ms: u32) -> (r: u32)
    ensures
        r == match prefs.motion {
            MotionPreference::Reduced => 0,
            MotionPreference::Full => base_ms,
        },
{
    match prefs.motion {
        MotionPreference::Reduced => 0,
        MotionPreference::Full => base_ms,
    }
}

} // verus!
