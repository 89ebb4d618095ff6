use slopos_shell::a11y_prefs::{
    apply_a11y_prefs_to_theme_name, effective_animation_ms, A11yPrefs, ContrastPreference,
    MotionPreference,
};
use slopos_shell::theme_manager::ThemeName;

#[test]
fn defaults_are_full_motion_normal_contrast() {
    let prefs = A11yPrefs::default();
    assert_eq!(prefs.motion, MotionPreference::Full);
    assert_eq!(prefs.contrast, ContrastPreference::Normal);
}

#[test]
fn parse_reduced_motion_and_high_contrast() {
    let text = "\
theme=classic
reduced_motion=true
high_contrast=true
";
    let prefs = A11yPrefs::parse_from_conf(text);
    assert_eq!(prefs.motion, MotionPreference::Reduced);
    assert_eq!(prefs.contrast, ContrastPreference::High);
}

#[test]
fn parse_false_keeps_defaults() {
    let text = "reduced_motion=false\nhigh_contrast=false\n";
    let prefs = A11yPrefs::parse_from_conf(text);
    assert_eq!(prefs.motion, MotionPreference::Full);
    assert_eq!(prefs.contrast, ContrastPreference::Normal);
}

#[test]
fn parse_legacy_aliases() {
    let text = "reduce_motion=true\nincrease_contrast=true\n";
    let prefs = A11yPrefs::parse_from_conf(text);
    assert_eq!(prefs.motion, MotionPreference::Reduced);
    assert_eq!(prefs.contrast, ContrastPreference::High);
}

#[test]
fn parse_ignores_comments_blanks_and_unknown() {
    let text = "\
# reduced_motion=true
bold_text=true

theme=dark
high_contrast=1
";
    let prefs = A11yPrefs::parse_from_conf(text);
    assert_eq!(prefs.motion, MotionPreference::Full);
    assert_eq!(prefs.contrast, ContrastPreference::High);
}

#[test]
fn parse_bool_variants() {
    assert_eq!(
        A11yPrefs::parse_from_conf("reduced_motion=YES").motion,
        MotionPreference::Reduced
    );
    assert_eq!(
        A11yPrefs::parse_from_conf("reduced_motion=on").motion,
        MotionPreference::Reduced
    );
    assert_eq!(
        A11yPrefs::parse_from_conf("high_contrast=0").contrast,
        ContrastPreference::Normal
    );
}

#[test]
fn high_contrast_forces_high_contrast_theme() {
    let prefs = A11yPrefs::new(MotionPreference::Full, ContrastPreference::High);
    assert_eq!(
        apply_a11y_prefs_to_theme_name(prefs, ThemeName::Classic),
        ThemeName::HighContrast
    );
    assert_eq!(
        apply_a11y_prefs_to_theme_name(prefs, ThemeName::Dracula),
        ThemeName::HighContrast
    );
}

#[test]
fn normal_contrast_keeps_current_theme() {
    let prefs = A11yPrefs::new(MotionPreference::Reduced, ContrastPreference::Normal);
    assert_eq!(
        apply_a11y_prefs_to_theme_name(prefs, ThemeName::Solarized),
        ThemeName::Solarized
    );
    assert_eq!(
        apply_a11y_prefs_to_theme_name(prefs, ThemeName::Classic),
        ThemeName::Classic
    );
}

#[test]
fn effective_animation_ms_respects_reduced_motion() {
    let full = A11yPrefs::new(MotionPreference::Full, ContrastPreference::Normal);
    let reduced = A11yPrefs::new(MotionPreference::Reduced, ContrastPreference::Normal);
    assert_eq!(effective_animation_ms(full, 250), 250);
    assert_eq!(effective_animation_ms(full, 0), 0);
    assert_eq!(effective_animation_ms(reduced, 250), 0);
    assert_eq!(effective_animation_ms(reduced, 16), 0);
}

#[test]
fn empty_conf_is_default() {
    assert_eq!(A11yPrefs::parse_from_conf(""), A11yPrefs::default());
    assert_eq!(
        A11yPrefs::parse_from_conf("theme=grape\n"),
        A11yPrefs::default()
    );
}
