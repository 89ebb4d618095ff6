use slopos_shell::i18n::{
    format_message, text_direction_for_locale, LocaleId, LocalePrefs, MessageCatalog,
    TextDirection,
};

#[test]
fn parse_locale_and_rtl() {
    let l = LocaleId::parse("ar_EG.UTF-8");
    assert_eq!(l.language, "ar");
    assert_eq!(l.region.as_deref(), Some("EG"));
    assert_eq!(text_direction_for_locale(&l), TextDirection::Rtl);
    assert_eq!(
        text_direction_for_locale(&LocaleId::parse("en_US")),
        TextDirection::Ltr
    );
}

#[test]
fn catalog_fallback() {
    let cat = MessageCatalog::with_builtin();
    let en = LocaleId::new("en", None);
    let es = LocaleId::new("es", Some("ES".into()));
    let de = LocaleId::new("de", None);
    assert_eq!(cat.get("menu.lock_screen", &en), "Lock Screen");
    assert_eq!(cat.get("menu.lock_screen", &es), "Bloquear pantalla");
    // German falls back to English
    assert_eq!(cat.get("menu.lock_screen", &de), "Lock Screen");
    assert_eq!(cat.get("missing.key", &en), "missing.key");
}

#[test]
fn conf_parse_force_rtl() {
    let p = LocalePrefs::parse_from_conf("locale=he_IL\nforce_rtl=true\n");
    assert_eq!(p.locale.language, "he");
    assert_eq!(p.effective_direction(), TextDirection::Rtl);
}

#[test]
fn a11y_and_portal_catalog_keys() {
    let cat = MessageCatalog::with_builtin();
    let en = LocaleId::new("en", None);
    assert_eq!(cat.get("a11y.action.activate", &en), "Activate");
    assert_eq!(cat.get("menu.force_quit", &en), "Force Quit…");
    assert!(cat
        .get("portal.screencast.stub", &en)
        .contains("portal stubs"));
    assert!(!cat
        .get("portal.screencast.socket", &en)
        .contains("live stream ready"));
    let es = LocaleId::new("es", None);
    assert_eq!(cat.get("a11y.action.activate", &es), "Activar");
}

#[test]
fn format_workspace() {
    assert_eq!(format_message("Desktop {n}", Some(3), None), "Desktop 3");
}

#[test]
fn session_locale_prefers_settings_unless_they_are_silent() {
    let p = LocalePrefs::for_session("", Some("fr_FR.UTF-8"));
    assert_eq!(p.locale.tag(), "fr-FR");
    let p = LocalePrefs::for_session("theme=dark\n", Some("fr_FR.UTF-8"));
    assert_eq!(p.locale.tag(), "fr-FR");
    let p = LocalePrefs::for_session("locale=en_US\n", Some("fr_FR.UTF-8"));
    assert_eq!(p.locale.tag(), "en-US");
    let p = LocalePrefs::for_session("lang=ar_EG\n", Some("fr_FR.UTF-8"));
    assert_eq!(p.locale.tag(), "ar-EG");
    assert_eq!(p.effective_direction(), TextDirection::Rtl);
}
