//! Minimal message catalog plus locale and text-direction policy.
//!
//! A static message table with locale fallbacks, so menus, the lock screen and
//! accessibility strings can be localized without a translation pipeline.
use vstd::prelude::*;

use crate::conf::{conf_bool, conf_bool_exec, conf_entries, parse_conf_entries};
use crate::text::{
    before_first, before_first_chars, chars_eq, chars_to_string, dec, decimal_string,
    eq_ignore_case, eq_ignore_case_str, eq_str, find_char, find_first, lower, lower_chars, owned,
    push_chars, replace_all, replace_all_chars, replace_char, replace_char_chars, slice_chars,
    str_chars, trim, trim_chars, upper, upper_chars,
};

verus! {

/// Text direction for layout.
#[derive(Clone, Copy, Debug, Eq, PartialEq, Structural)]
pub enum TextDirection {
    Ltr,
    Rtl,
}

impl Default for TextDirection {
    fn default() -> (r: Self)
        ensures
            r == TextDirection::Ltr,
    {
        TextDirection::Ltr
    }
}

impl TextDirection {
    pub fn as_str(self) -> (r: &'static str)
        ensures
            r@ == (match self {
                TextDirection::Ltr => "ltr"@,
                TextDirection::Rtl => "rtl"@,
            }),
    {
        match self {
            TextDirection::Ltr => "ltr",
            TextDirection::Rtl => "rtl",
        }
    }
}

/// Parsed locale (language + optional region).
#[derive(Clone, Debug, Eq, PartialEq)]
pub struct LocaleId {
    pub language: String,
    pub region: Option<String>,
}

/// Text of an optional string.
pub open spec fn opt_view(o: Option<String>) -> Option<Seq<char>> {
    match o {
        Some(s) => Some(s@),
        None => None,
    }
}

/// BCP47-ish tag of a locale: `language` or `language-REGION`.
pub open spec fn locale_tag(l: LocaleId) -> Seq<char> {
    match l.region {
        Some(r) => l.language@ + "-"@ + r@,
        None => l.language@,
    }
}

/// Language and region of a parsed locale name, before case normalization.
pub open spec fn locale_parts(s: Seq<char>) -> (Seq<char>, Option<Seq<char>>) {
    let t = trim(s);
    if t.len() == 0 || eq_ignore_case(t, "C"@) || eq_ignore_case(t, "POSIX"@) {
        ("en"@, Some("US"@))
    } else {
        let b = replace_char(before_first(t, '.'), '_', '-');
        let p = find_first(b, '-');
        (before_first(b, '-'), if p < 0 {
            None
        } else {
            Some(before_first(b.skip(p + 1), '-'))
        })
    }
}

/// The locale `new(language, region)` builds.
pub open spec fn locale_is(l: LocaleId, language: Seq<char>, region: Option<Seq<char>>) -> bool {
    &&& l.language@ == lower(language)
    &&& opt_view(l.region) == match region {
        Some(r) => Some(upper(r)),
        None => None,
    }
}

impl LocaleId {
    /// Locale with the language ASCII-lowercased and the region uppercased.
    pub fn new(language: &str, region: Option<String>) -> (r: Self)
        ensures
            locale_is(r, language@, opt_view(region)),
    {
        let l = str_chars(language);
        let ll = lower_chars(&l);
        let region = match region {
            Some(r) => {
                let rv = str_chars(r.as_str());
                let ru = upper_chars(&rv);
                Some(chars_to_string(&ru))
            },
            None => None,
        };
        LocaleId { language: chars_to_string(&ll), region }
    }

    /// BCP47-ish tag: `en`, `en-US`, `ar`, `he-IL`.
    pub fn tag(&self) -> (r: String)
        ensures
            r@ == locale_tag(*self),
    {
        match &self.region {
            Some(r) => {
                let mut v = str_chars(self.language.as_str());
                v.push('-');
                let rv = str_chars(r.as_str());
                push_chars(&mut v, &rv);
                proof {
                    reveal_strlit("-");
                }
                assert(v@ =~= self.language@ + "-"@ + r@);
                chars_to_string(&v)
            },
            None => self.language.clone(),
        }
    }

    /// Parse `en_US.UTF-8`, `en-US`, `fr`, `C`, `POSIX` (the last two, and
    /// blank text, mean `en-US`).
    pub fn parse(s: &str) -> (r: Self)
        ensures
            locale_is(r, locale_parts(s@).0, locale_parts(s@).1),
    {
        let raw = str_chars(s);
        let t = trim_chars(&raw);
        if t.len() == 0 || eq_ignore_case_str(&t, "C") || eq_ignore_case_str(&t, "POSIX") {
            return LocaleId::new("en", Some(owned("US")));
        }
        let base = before_first_chars(&t, '.');
        let b = replace_char_chars(&base, '_', '-');
        let lang = before_first_chars(&b, '-');
        let region = match find_char(&b, '-') {
            Some(p) => {
                let rest = slice_chars(&b, p + 1, b.len());
                assert(rest@ =~= b@.skip(p + 1));
                let reg = before_first_chars(&rest, '-');
                Some(chars_to_string(&reg))
            },
            None => None,
        };
        let ls = chars_to_string(&lang);
        LocaleId::new(ls.as_str(), region)
    }
}

/// Languages that default to RTL script direction (compared ASCII-lowercased).
pub open spec fn rtl_language(l: Seq<char>) -> bool {
    l == "ar"@ || l == "he"@ || l == "fa"@ || l == "ur"@ || l == "yi"@ || l == "ps"@ || l
        == "ckb"@
}

/// Languages that default to RTL script direction.
pub fn is_rtl_language(language: &str) -> (r: bool)
    ensures
        r == rtl_language(lower(language@)),
{
    let v = str_chars(language);
    let l = lower_chars(&v);
    eq_str(&l, "ar") || eq_str(&l, "he") || eq_str(&l, "fa") || eq_str(&l, "ur") || eq_str(&l, "yi")
        || eq_str(&l, "ps") || eq_str(&l, "ckb")
}

/// Direction a locale implies.
pub open spec fn direction_of(l: LocaleId) -> TextDirection {
    if rtl_language(lower(l.language@)) {
        TextDirection::Rtl
    } else {
        TextDirection::Ltr
    }
}

/// Resolve text direction from locale.
pub fn text_direction_for_locale(locale: &LocaleId) -> (r: TextDirection)
    ensures
        r == direction_of(*locale),
{
    if is_rtl_language(locale.language.as_str()) {
        TextDirection::Rtl
    } else {
        TextDirection::Ltr
    }
}

/// One catalog row: message for a key in a locale.
#[derive(Clone, Debug)]
struct CatalogRow {
    key: String,
    locale: String,
    message: String,
}

/// Messages by (key, locale) of a row list; a later row overrides an earlier one.
spec fn rows_map(v: Seq<CatalogRow>) -> Map<(Seq<char>, Seq<char>), Seq<char>>
    decreases v.len(),
{
    if v.len() == 0 {
        Map::empty()
    } else {
        rows_map(v.drop_last()).insert((v.last().key@, v.last().locale@), v.last().message@)
    }
}

/// Message catalog: (key, locale tag) → message, with a fallback locale.
#[derive(Clone, Debug)]
pub struct MessageCatalog {
    rows: Vec<CatalogRow>,
    fallback_locale: String,
}

impl View for MessageCatalog {
    /// Messages by (key, lowercase locale tag), and the fallback locale.
    type V = (Map<(Seq<char>, Seq<char>), Seq<char>>, Seq<char>);

    closed spec fn view(&self) -> (Map<(Seq<char>, Seq<char>), Seq<char>>, Seq<char>) {
        (rows_map(self.rows@), self.fallback_locale@)
    }
}

/// `(key, locale, message)` triples inserted in order, locales lowercased.
pub open spec fn insert_all(
    m: Map<(Seq<char>, Seq<char>), Seq<char>>,
    t: Seq<(Seq<char>, Seq<char>, Seq<char>)>,
) -> Map<(Seq<char>, Seq<char>), Seq<char>>
    decreases t.len(),
{
    if t.len() == 0 {
        m
    } else {
        insert_all(m, t.drop_last()).insert((t.last().0, lower(t.last().1)), t.last().2)
    }
}

/// Message for `key` in `locale`: the full lowercase tag, then the language,
/// then the fallback locale, then `en`; the key itself when none is present.
pub open spec fn lookup(c: (Map<(Seq<char>, Seq<char>), Seq<char>>, Seq<char>), key: Seq<char>, locale: LocaleId) -> Seq<char> {
    let m = c.0;
    let tag = lower(locale_tag(locale));
    if m.contains_key((key, tag)) {
        m[(key, tag)]
    } else if m.contains_key((key, locale.language@)) {
        m[(key, locale.language@)]
    } else if m.contains_key((key, c.1)) {
        m[(key, c.1)]
    } else if m.contains_key((key, "en"@)) {
        m[(key, "en"@)]
    } else {
        key
    }
}

proof fn lemma_rows_last(v: Seq<CatalogRow>, k: Seq<char>, l: Seq<char>, i: int)
    requires
        -1 <= i < v.len(),
        i >= 0 ==> v[i].key@ == k && v[i].locale@ == l,
        forall|j: int| i < j < v.len() ==> !(v[j].key@ == k && v[j].locale@ == l),
    ensures
        i >= 0 ==> rows_map(v).contains_key((k, l)) && rows_map(v)[(k, l)] == v[i].message@,
        i < 0 ==> !rows_map(v).contains_key((k, l)),
    decreases v.len(),
{
    if v.len() > 0 {
        if i == v.len() - 1 {
        } else {
            lemma_rows_last(v.drop_last(), k, l, i);
        }
    }
}

impl MessageCatalog {
    /// Empty catalog, falling back to `en`.
    pub fn new() -> (r: Self)
        ensures
            r@.0 == Map::<(Seq<char>, Seq<char>), Seq<char>>::empty(),
            r@.1 == "en"@,
    {
        MessageCatalog { rows: Vec::new(), fallback_locale: owned("en") }
    }

    /// Catalog seeded with the built-in English, Spanish, Arabic and French messages.
    pub fn with_builtin() -> (r: Self)
        ensures
            r@.0 == insert_all(Map::empty(), builtin_messages()),
            r@.1 == "en"@,
    {
        let mut cat = Self::new();
        cat.seed_builtin();
        cat
    }

    /// Set the message for `key` in `locale` (locale ASCII-lowercased).
    pub fn insert(&mut self, key: &str, locale: &str, message: &str)
        ensures
            final(self)@.0 == old(self)@.0.insert((key@, lower(locale@)), message@),
            final(self)@.1 == old(self)@.1,
    {
        let lv = str_chars(locale);
        let ll = lower_chars(&lv);
        let ghost before = self.rows@;
        self.rows.push(
            CatalogRow { key: owned(key), locale: chars_to_string(&ll), message: owned(message) },
        );
        assert(self.rows@.drop_last() =~= before);
    }

    fn find(&self, key: &[char], locale: &[char]) -> (r: Option<usize>)
        ensures
            match r {
                Some(i) => i < self.rows@.len() && rows_map(self.rows@).contains_key((key@, locale@))
                    && rows_map(self.rows@)[(key@, locale@)] == self.rows@[i as int].message@,
                None => !rows_map(self.rows@).contains_key((key@, locale@)),
            },
    {
        let mut i: usize = self.rows.len();
        while i > 0
            invariant
                i <= self.rows@.len(),
                forall|j: int|
                    i <= j < self.rows@.len() ==> !(self.rows@[j].key@ == key@
                        && self.rows@[j].locale@ == locale@),
            decreases i,
        {
            let row = &self.rows[i - 1];
            let kv = str_chars(row.key.as_str());
            let lv = str_chars(row.locale.as_str());
            if chars_eq(&kv, key) && chars_eq(&lv, locale) {
                proof {
                    lemma_rows_last(self.rows@, key@, locale@, i - 1);
                }
                return Some(i - 1);
            }
            i = i - 1;
        }
        proof {
            lemma_rows_last(self.rows@, key@, locale@, -1);
        }
        None
    }

    /// Lookup with fallback: full tag → language → fallback locale → `en` → key.
    pub fn get(&self, key: &str, locale: &LocaleId) -> (r: String)
        ensures
            r@ == lookup(self@, key@, *locale),
    {
        let k = str_chars(key);
        let tag = locale.tag();
        let tv = str_chars(tag.as_str());
        let t = lower_chars(&tv);
        if let Some(i) = self.find(&k, &t) {
            return self.rows[i].message.clone();
        }
        let lang = str_chars(locale.language.as_str());
        if let Some(i) = self.find(&k, &lang) {
            return self.rows[i].message.clone();
        }
        let fb = str_chars(self.fallback_locale.as_str());
        if let Some(i) = self.find(&k, &fb) {
            return self.rows[i].message.clone();
        }
        let en = str_chars("en");
        if let Some(i) = self.find(&k, &en) {
            return self.rows[i].message.clone();
        }
        owned(key)
    }

    fn seed_builtin(&mut self)
        ensures
            final(self)@.0 == insert_all(old(self)@.0, builtin_messages()),
            final(self)@.1 == old(self)@.1,
    {
        let table = builtin_table();
        let mut i: usize = 0;
        let ghost t = builtin_messages();
        assert(t.take(0) =~= Seq::<(Seq<char>, Seq<char>, Seq<char>)>::empty());
        while i < table.len()
            invariant
                t == builtin_messages(),
                table@.len() == t.len(),
                forall|j: int|
                    0 <= j < t.len() ==> (#[trigger] table@[j]).0@ == t[j].0 && table@[j].1@
                        == t[j].1 && table@[j].2@ == t[j].2,
                i <= table@.len(),
                self@.0 == insert_all(old(self)@.0, t.take(i as int)),
                self@.1 == old(self)@.1,
            decreases table@.len() - i,
        {
            let (k, l, m) = table[i];
            self.insert(k, l, m);
            assert(t.take(i + 1).drop_last() =~= t.take(i as int));
            i = i + 1;
        }
        assert(t.take(t.len() as int) =~= t);
    }
}

impl Default for MessageCatalog {
    fn default() -> (r: Self)
        ensures
            r@.0 == Map::<(Seq<char>, Seq<char>), Seq<char>>::empty(),
            r@.1 == Seq::<char>::empty(),
    {
        MessageCatalog { rows: Vec::new(), fallback_locale: String::new() }
    }
}

/// The built-in messages, as `(key, locale, message)` in seeding order.
pub open spec fn builtin_messages() -> Seq<(Seq<char>, Seq<char>, Seq<char>)> {
    seq![
        ("menu.lock_screen"@, "en"@, "Lock Screen"@),
        ("menu.log_out"@, "en"@, "Log Out…"@),
        ("menu.suspend"@, "en"@, "Sleep"@),
        ("menu.reboot"@, "en"@, "Restart…"@),
        ("menu.power_off"@, "en"@, "Shut Down…"@),
        ("menu.quit"@, "en"@, "Quit SLOPOS-I"@),
        ("menu.force_quit"@, "en"@, "Force Quit…"@),
        ("menu.notification_center"@, "en"@, "Notification Center"@),
        ("menu.about"@, "en"@, "About SLOPOS-I"@),
        ("lock.prompt"@, "en"@, "Enter password to unlock"@),
        ("lock.error"@, "en"@, "Incorrect password"@),
        ("confirm.logout"@, "en"@, "Log out of SLOPOS-I?"@),
        ("confirm.reboot"@, "en"@, "Restart the computer now?"@),
        ("confirm.poweroff"@, "en"@, "Shut down the computer now?"@),
        ("a11y.menu_bar"@, "en"@, "Menu Bar"@),
        ("a11y.dock"@, "en"@, "Dock"@),
        ("a11y.desktop"@, "en"@, "Desktop"@),
        ("a11y.windows"@, "en"@, "Windows"@),
        ("a11y.action.activate"@, "en"@, "Activate"@),
        ("a11y.action.press"@, "en"@, "Press"@),
        ("a11y.action.focus"@, "en"@, "Focus"@),
        ("a11y.action.click"@, "en"@, "Click"@),
        ("a11y.notification_center"@, "en"@, "Notification Center"@),
        ("status.network"@, "en"@, "Network"@),
        ("status.battery"@, "en"@, "Battery"@),
        ("workspace.desktop_n"@, "en"@, "Desktop {n}"@),
        ("portal.inhibit.active"@, "en"@, "Session idle inhibit active"@),
        ("portal.screencast.stub"@, "en"@, "Screen share uses portal stubs (no live PipeWire stream)"@),
        ("portal.screencast.socket"@, "en"@, "PipeWire socket present; streams still protocol stubs"@),
        ("menu.lock_screen"@, "es"@, "Bloquear pantalla"@),
        ("menu.log_out"@, "es"@, "Cerrar sesión…"@),
        ("menu.suspend"@, "es"@, "Suspender"@),
        ("menu.reboot"@, "es"@, "Reiniciar…"@),
        ("menu.power_off"@, "es"@, "Apagar…"@),
        ("menu.force_quit"@, "es"@, "Forzar salida…"@),
        ("menu.notification_center"@, "es"@, "Centro de notificaciones"@),
        ("lock.prompt"@, "es"@, "Introduzca la contraseña para desbloquear"@),
        ("lock.error"@, "es"@, "Contraseña incorrecta"@),
        ("confirm.logout"@, "es"@, "¿Cerrar sesión de SLOPOS-I?"@),
        ("a11y.menu_bar"@, "es"@, "Barra de menús"@),
        ("a11y.dock"@, "es"@, "Dock"@),
        ("a11y.desktop"@, "es"@, "Escritorio"@),
        ("a11y.windows"@, "es"@, "Ventanas"@),
        ("a11y.action.activate"@, "es"@, "Activar"@),
        ("a11y.notification_center"@, "es"@, "Centro de notificaciones"@),
        ("portal.inhibit.active"@, "es"@, "Inhibición de inactividad activa"@),
        ("menu.lock_screen"@, "ar"@, "قفل الشاشة"@),
        ("menu.log_out"@, "ar"@, "تسجيل الخروج…"@),
        ("menu.suspend"@, "ar"@, "إيقاف مؤقت"@),
        ("menu.reboot"@, "ar"@, "إعادة التشغيل…"@),
        ("menu.power_off"@, "ar"@, "إيقاف التشغيل…"@),
        ("menu.force_quit"@, "ar"@, "إنهاء إجباري…"@),
        ("menu.notification_center"@, "ar"@, "مركز الإشعارات"@),
        ("lock.prompt"@, "ar"@, "أدخل كلمة المرور لفتح القفل"@),
        ("lock.error"@, "ar"@, "كلمة المرور غير صحيحة"@),
        ("confirm.logout"@, "ar"@, "هل تريد تسجيل الخروج من SLOPOS-I؟"@),
        ("a11y.menu_bar"@, "ar"@, "شريط القوائم"@),
        ("a11y.dock"@, "ar"@, "الرصيف"@),
        ("a11y.desktop"@, "ar"@, "سطح المكتب"@),
        ("a11y.windows"@, "ar"@, "النوافذ"@),
        ("a11y.action.activate"@, "ar"@, "تفعيل"@),
        ("a11y.notification_center"@, "ar"@, "مركز الإشعارات"@),
        ("portal.inhibit.active"@, "ar"@, "منع الخمول نشط"@),
        ("menu.lock_screen"@, "fr"@, "Verrouiller l’écran"@),
        ("menu.log_out"@, "fr"@, "Se déconnecter…"@),
        ("menu.suspend"@, "fr"@, "Veille"@),
        ("menu.reboot"@, "fr"@, "Redémarrer…"@),
        ("menu.power_off"@, "fr"@, "Éteindre…"@),
        ("menu.force_quit"@, "fr"@, "Forcer à quitter…"@),
        ("menu.notification_center"@, "fr"@, "Centre de notifications"@),
        ("lock.prompt"@, "fr"@, "Entrez le mot de passe pour déverrouiller"@),
        ("confirm.logout"@, "fr"@, "Se déconnecter de SLOPOS-I ?"@),
        ("a11y.menu_bar"@, "fr"@, "Barre de menus"@),
        ("a11y.dock"@, "fr"@, "Dock"@),
        ("a11y.desktop"@, "fr"@, "Bureau"@),
        ("a11y.windows"@, "fr"@, "Fenêtres"@),
        ("a11y.action.activate"@, "fr"@, "Activer"@),
        ("portal.inhibit.active"@, "fr"@, "Inhibition d’inactivité active"@),
    ]
}

fn builtin_table() -> (v: Vec<(&'static str, &'static str, &'static str)>)
    ensures
        v@.len() == builtin_messages().len(),
        forall|j: int|
            0 <= j < v@.len() ==> (#[trigger] v@[j]).0@ == builtin_messages()[j].0 && v@[j].1@
                == builtin_messages()[j].1 && v@[j].2@ == builtin_messages()[j].2,
{
    let mut v: Vec<(&'static str, &'static str, &'static str)> = Vec::new();
    v.push(("menu.lock_screen", "en", "Lock Screen"));
    v.push(("menu.log_out", "en", "Log Out…"));
    v.push(("menu.suspend", "en", "Sleep"));
    v.push(("menu.reboot", "en", "Restart…"));
    v.push(("menu.power_off", "en", "Shut Down…"));
    v.push(("menu.quit", "en", "Quit SLOPOS-I"));
    v.push(("menu.force_quit", "en", "Force Quit…"));
    v.push(("menu.notification_center", "en", "Notification Center"));
    v.push(("menu.about", "en", "About SLOPOS-I"));
    v.push(("lock.prompt", "en", "Enter password to unlock"));
    v.push(("lock.error", "en", "Incorrect password"));
    v.push(("confirm.logout", "en", "Log out of SLOPOS-I?"));
    v.push(("confirm.reboot", "en", "Restart the computer now?"));
    v.push(("confirm.poweroff", "en", "Shut down the computer now?"));
    v.push(("a11y.menu_bar", "en", "Menu Bar"));
    v.push(("a11y.dock", "en", "Dock"));
    v.push(("a11y.desktop", "en", "Desktop"));
    v.push(("a11y.windows", "en", "Windows"));
    v.push(("a11y.action.activate", "en", "Activate"));
    v.push(("a11y.action.press", "en", "Press"));
    v.push(("a11y.action.focus", "en", "Focus"));
    v.push(("a11y.action.click", "en", "Click"));
    v.push(("a11y.notification_center", "en", "Notification Center"));
    v.push(("status.network", "en", "Network"));
    v.push(("status.battery", "en", "Battery"));
    v.push(("workspace.desktop_n", "en", "Desktop {n}"));
    v.push(("portal.inhibit.active", "en", "Session idle inhibit active"));
    v.push(("portal.screencast.stub", "en", "Screen share uses portal stubs (no live PipeWire stream)"));
    v.push(("portal.screencast.socket", "en", "PipeWire socket present; streams still protocol stubs"));
    v.push(("menu.lock_screen", "es", "Bloquear pantalla"));
    v.push(("menu.log_out", "es", "Cerrar sesión…"));
    v.push(("menu.suspend", "es", "Suspender"));
    v.push(("menu.reboot", "es", "Reiniciar…"));
    v.push(("menu.power_off", "es", "Apagar…"));
    v.push(("menu.force_quit", "es", "Forzar salida…"));
    v.push(("menu.notification_center", "es", "Centro de notificaciones"));
    v.push(("lock.prompt", "es", "Introduzca la contraseña para desbloquear"));
    v.push(("lock.error", "es", "Contraseña incorrecta"));
    v.push(("confirm.logout", "es", "¿Cerrar sesión de SLOPOS-I?"));
    v.push(("a11y.menu_bar", "es", "Barra de menús"));
    v.push(("a11y.dock", "es", "Dock"));
    v.push(("a11y.desktop", "es", "Escritorio"));
    v.push(("a11y.windows", "es", "Ventanas"));
    v.push(("a11y.action.activate", "es", "Activar"));
    v.push(("a11y.notification_center", "es", "Centro de notificaciones"));
    v.push(("portal.inhibit.active", "es", "Inhibición de inactividad activa"));
    v.push(("menu.lock_screen", "ar", "قفل الشاشة"));
    v.push(("menu.log_out", "ar", "تسجيل الخروج…"));
    v.push(("menu.suspend", "ar", "إيقاف مؤقت"));
    v.push(("menu.reboot", "ar", "إعادة التشغيل…"));
    v.push(("menu.power_off", "ar", "إيقاف التشغيل…"));
    v.push(("menu.force_quit", "ar", "إنهاء إجباري…"));
    v.push(("menu.notification_center", "ar", "مركز الإشعارات"));
    v.push(("lock.prompt", "ar", "أدخل كلمة المرور لفتح القفل"));
    v.push(("lock.error", "ar", "كلمة المرور غير صحيحة"));
    v.push(("confirm.logout", "ar", "هل تريد تسجيل الخروج من SLOPOS-I؟"));
    v.push(("a11y.menu_bar", "ar", "شريط القوائم"));
    v.push(("a11y.dock", "ar", "الرصيف"));
    v.push(("a11y.desktop", "ar", "سطح المكتب"));
    v.push(("a11y.windows", "ar", "النوافذ"));
    v.push(("a11y.action.activate", "ar", "تفعيل"));
    v.push(("a11y.notification_center", "ar", "مركز الإشعارات"));
    v.push(("portal.inhibit.active", "ar", "منع الخمول نشط"));
    v.push(("menu.lock_screen", "fr", "Verrouiller l’écran"));
    v.push(("menu.log_out", "fr", "Se déconnecter…"));
    v.push(("menu.suspend", "fr", "Veille"));
    v.push(("menu.reboot", "fr", "Redémarrer…"));
    v.push(("menu.power_off", "fr", "Éteindre…"));
    v.push(("menu.force_quit", "fr", "Forcer à quitter…"));
    v.push(("menu.notification_center", "fr", "Centre de notifications"));
    v.push(("lock.prompt", "fr", "Entrez le mot de passe pour déverrouiller"));
    v.push(("confirm.logout", "fr", "Se déconnecter de SLOPOS-I ?"));
    v.push(("a11y.menu_bar", "fr", "Barre de menus"));
    v.push(("a11y.dock", "fr", "Dock"));
    v.push(("a11y.desktop", "fr", "Bureau"));
    v.push(("a11y.windows", "fr", "Fenêtres"));
    v.push(("a11y.action.activate", "fr", "Activer"));
    v.push(("portal.inhibit.active", "fr", "Inhibition d’inactivité active"));
    v
}

/// Session locale preferences.
#[derive(Clone, Debug, Eq, PartialEq)]
pub struct LocalePrefs {
    pub locale: LocaleId,
    pub direction: TextDirection,
    /// Explicit override; when set, wins over locale-derived direction.
    pub force_rtl: Option<bool>,
}

impl Default for LocalePrefs {
    fn default() -> (r: Self)
        ensures
            locale_is(r.locale, "en"@, Some("US"@)),
            r.direction == direction_of(r.locale),
            r.force_rtl is None,
    {
        LocalePrefs::from_locale(LocaleId::new("en", Some(owned("US"))))
    }
}

/// Locale name and RTL override set by a settings text, last entry winning.
pub open spec fn locale_conf(es: Seq<(Seq<char>, Seq<char>)>) -> (Option<Seq<char>>, Option<bool>)
    decreases es.len(),
{
    if es.len() == 0 {
        (None, None)
    } else {
        let prev = locale_conf(es.drop_last());
        let k = trim(es.last().0);
        let v = trim(es.last().1);
        if k == "locale"@ || k == "lang"@ || k == "language"@ {
            (Some(v), prev.1)
        } else if k == "force_rtl"@ || k == "rtl"@ {
            (prev.0, Some(conf_bool(v)))
        } else {
            prev
        }
    }
}

impl LocalePrefs {
    /// Preferences of a locale, direction derived from its language.
    pub fn from_locale(locale: LocaleId) -> (r: Self)
        ensures
            r.locale == locale,
            r.direction == direction_of(locale),
            r.force_rtl is None,
    {
        let direction = text_direction_for_locale(&locale);
        LocalePrefs { locale, direction, force_rtl: None }
    }

    /// Preferences from a `LANG`-style value (absent means `en_US.UTF-8`).
    pub fn parse_from_env_lang(lang: Option<&str>) -> (r: Self)
        ensures
            locale_is(r.locale, locale_parts(match lang {
                Some(l) => l@,
                None => "en_US.UTF-8"@,
            }).0, locale_parts(match lang {
                Some(l) => l@,
                None => "en_US.UTF-8"@,
            }).1),
            r.direction == direction_of(r.locale),
            r.force_rtl is None,
    {
        let l = match lang {
            Some(l) => l,
            None => "en_US.UTF-8",
        };
        LocalePrefs::from_locale(LocaleId::parse(l))
    }

    /// Direction in effect: the override when set, else the derived one.
    pub fn effective_direction(&self) -> (r: TextDirection)
        ensures
            r == match self.force_rtl {
                Some(true) => TextDirection::Rtl,
                Some(false) => TextDirection::Ltr,
                None => self.direction,
            },
    {
        match self.force_rtl {
            Some(true) => TextDirection::Rtl,
            Some(false) => TextDirection::Ltr,
            None => self.direction,
        }
    }

    /// Parse `locale=` / `lang=` / `language=` and `force_rtl=` / `rtl=` from
    /// settings text; an override also sets the direction.
    pub fn parse_from_conf(text: &str) -> (r: Self)
        ensures
            ({
                let c = locale_conf(conf_entries(text@));
                let name = match c.0 {
                    Some(v) => v,
                    None => "en_US.UTF-8"@,
                };
                &&& locale_is(r.locale, locale_parts(name).0, locale_parts(name).1)
                &&& r.force_rtl == c.1
                &&& r.direction == match c.1 {
                    Some(true) => TextDirection::Rtl,
                    Some(false) => TextDirection::Ltr,
                    None => direction_of(r.locale),
                }
            }),
    {
        let entries = parse_conf_entries(text);
        let ghost es = conf_entries(text@);
        let mut lang: Option<String> = None;
        let mut force_rtl: Option<bool> = None;
        let mut i: usize = 0;
        assert(es.take(0) =~= Seq::<(Seq<char>, Seq<char>)>::empty());
        while i < entries.len()
            invariant
                es == conf_entries(text@),
                entries@.len() == es.len(),
                forall|k: int|
                    0 <= k < entries@.len() ==> (#[trigger] entries@[k]).key@ == es[k].0
                        && entries@[k].value@ == es[k].1,
                i <= entries@.len(),
                (opt_view(lang), force_rtl) == locale_conf(es.take(i as int)),
            decreases entries@.len() - i,
        {
            let e = &entries[i];
            assert(es.take(i + 1).drop_last() =~= es.take(i as int));
            assert(es.take(i + 1).last() == es[i as int]);
            let k = trim_chars(&e.key);
            let v = trim_chars(&e.value);
            if eq_str(&k, "locale") || eq_str(&k, "lang") || eq_str(&k, "language") {
                lang = Some(chars_to_string(&v));
            } else if eq_str(&k, "force_rtl") || eq_str(&k, "rtl") {
                force_rtl = Some(conf_bool_exec(&v));
            }
            i = i + 1;
        }
        assert(es.take(es.len() as int) =~= es);
        let mut prefs = match &lang {
            Some(l) => LocalePrefs::parse_from_env_lang(Some(l.as_str())),
            None => LocalePrefs::parse_from_env_lang(None),
        };
        prefs.force_rtl = force_rtl;
        if let Some(f) = force_rtl {
            prefs.direction = if f {
                TextDirection::Rtl
            } else {
                TextDirection::Ltr
            };
        }
        prefs
    }
}

/// What `parse_from_env_lang(lang)` yields.
pub open spec fn env_lang_prefs(r: LocalePrefs, lang: Option<Seq<char>>) -> bool {
    let name = match lang {
        Some(l) => l,
        None => "en_US.UTF-8"@,
    };
    &&& locale_is(r.locale, locale_parts(name).0, locale_parts(name).1)
    &&& r.direction == direction_of(r.locale)
    &&& r.force_rtl is None
}

/// What `parse_from_conf(text)` yields.
pub open spec fn conf_locale_prefs(r: LocalePrefs, text: Seq<char>) -> bool {
    let c = locale_conf(conf_entries(text));
    let name = match c.0 {
        Some(v) => v,
        None => "en_US.UTF-8"@,
    };
    &&& locale_is(r.locale, locale_parts(name).0, locale_parts(name).1)
    &&& r.force_rtl == c.1
    &&& r.direction == match c.1 {
        Some(true) => TextDirection::Rtl,
        Some(false) => TextDirection::Ltr,
        None => direction_of(r.locale),
    }
}

/// Some line of the settings text, trimmed, sets a locale key.
pub open spec fn has_locale_line(ls: Seq<Seq<char>>) -> bool {
    exists|i: int|
        0 <= i < ls.len() && {
            let t = trim(#[trigger] ls[i]);
            crate::text::starts_with(t, "locale="@) || crate::text::starts_with(t, "lang="@)
                || crate::text::starts_with(t, "language="@)
        }
}

/// The settings text leaves the locale to `LANG`: it is empty, or it
/// yields the default `en-US` without any locale line.
pub open spec fn session_locale_from_env(text: Seq<char>) -> bool {
    let c = locale_conf(conf_entries(text));
    let name = match c.0 {
        Some(v) => v,
        None => "en_US.UTF-8"@,
    };
    let parts = locale_parts(name);
    ||| text.len() == 0
    ||| (lower(parts.0) == "en"@ && parts.1 is Some && upper(parts.1->0) == "US"@ && !has_locale_line(crate::text::lines(text)))
}

fn has_locale_line_exec(text: &str) -> (r: bool)
    ensures
        r == has_locale_line(crate::text::lines(text@)),
{
    let ls = crate::text::split_lines(&str_chars(text));
    let ghost lv = crate::text::lines(text@);
    let mut i: usize = 0;
    while i < ls.len()
        invariant
            i <= ls@.len(),
            crate::text::views(ls@) == lv,
            lv == crate::text::lines(text@),
            forall|j: int|
                0 <= j < i ==> !({
                    let t = trim(#[trigger] lv[j]);
                    crate::text::starts_with(t, "locale="@) || crate::text::starts_with(
                        t,
                        "lang="@,
                    ) || crate::text::starts_with(t, "language="@)
                }),
        decreases ls@.len() - i,
    {
        let t = trim_chars(&ls[i]);
        assert(lv[i as int] == ls@[i as int]@);
        if crate::text::starts_with_str(&t, "locale=") || crate::text::starts_with_str(&t, "lang=")
            || crate::text::starts_with_str(&t, "language=") {
            return true;
        }
        i = i + 1;
    }
    false
}

impl LocalePrefs {
    /// The session's locale preferences: from `LANG` when the settings text
    /// is empty, or when it yields the default `en-US` and has no locale
    /// line; otherwise from the settings text.
    pub fn for_session(conf_text: &str, env_lang: Option<&str>) -> (r: Self)
        ensures
            session_locale_from_env(conf_text@) ==> env_lang_prefs(r, crate::opt_view(env_lang)),
            !session_locale_from_env(conf_text@) ==> conf_locale_prefs(r, conf_text@),
    {
        if crate::text::str_is_empty(conf_text) {
            return LocalePrefs::parse_from_env_lang(env_lang);
        }
        let p = LocalePrefs::parse_from_conf(conf_text);
        let language = str_chars(p.locale.language.as_str());
        let us = match &p.locale.region {
            Some(r) => crate::text::str_eq(r.as_str(), "US"),
            None => false,
        };
        proof {
            reveal_strlit("US");
        }
        if eq_str(&language, "en") && us && !has_locale_line_exec(conf_text) {
            LocalePrefs::parse_from_env_lang(env_lang)
        } else {
            p
        }
    }
}

/// `template` with `{n}` replaced by the decimal `n` (when given), then
/// `{name}` replaced by `name` (when given).
pub open spec fn formatted(template: Seq<char>, n: Option<u32>, name: Option<Seq<char>>) -> Seq<char> {
    let s = match n {
        Some(x) => replace_all(template, "{n}"@, dec(x as nat)),
        None => template,
    };
    match name {
        Some(nm) => replace_all(s, "{name}"@, nm),
        None => s,
    }
}

/// Format a simple template: replace `{n}` and `{name}` placeholders.
pub fn format_message(template: &str, n: Option<u32>, name: Option<&str>) -> (r: String)
    ensures
        r@ == formatted(template@, n, match name {
            Some(x) => Some(x@),
            None => None,
        }),
{
    let mut s = str_chars(template);
    if let Some(n) = n {
        let pat = str_chars("{n}");
        proof {
            reveal_strlit("{n}");
        }
        let num = decimal_string(n as u64);
        let rep = str_chars(num.as_str());
        s = replace_all_chars(&s, &pat, &rep);
    }
    if let Some(name) = name {
        let pat = str_chars("{name}");
        proof {
            reveal_strlit("{name}");
        }
        let rep = str_chars(name);
        s = replace_all_chars(&s, &pat, &rep);
    }
    chars_to_string(&s)
}

/// Translate `key` with the built-in catalog.
pub fn tr(key: &str, locale: &LocaleId) -> (r: String)
    ensures
        r@ == lookup((insert_all(Map::empty(), builtin_messages()), "en"@), key@, *locale),
{
    MessageCatalog::with_builtin().get(key, locale)
}

/// A message inserted under a locale's full tag (any ASCII case) is what
/// that locale then gets for the key.
pub proof fn law_catalog_insert_then_get(
    c: (Map<(Seq<char>, Seq<char>), Seq<char>>, Seq<char>),
    key: Seq<char>,
    locale_text: Seq<char>,
    message: Seq<char>,
    locale: LocaleId,
)
    requires
        lower(locale_text) == lower(locale_tag(locale)),
    ensures
        lookup((c.0.insert((key, lower(locale_text)), message), c.1), key, locale) == message,
{
}

/// A message inserted under a locale's language serves that locale when no
/// message exists for its full tag.
pub proof fn law_catalog_language_fallback(
    c: (Map<(Seq<char>, Seq<char>), Seq<char>>, Seq<char>),
    key: Seq<char>,
    language_text: Seq<char>,
    message: Seq<char>,
    locale: LocaleId,
)
    requires
        lower(language_text) == locale.language@,
        lower(language_text) != lower(locale_tag(locale)),
        !c.0.contains_key((key, lower(locale_tag(locale)))),
    ensures
        lookup((c.0.insert((key, lower(language_text)), message), c.1), key, locale) == message,
{
}

/// Exactly the locales whose language is, ignoring ASCII case, Arabic,
/// Hebrew, Persian, Urdu, Yiddish, Pashto or Central Kurdish are written
/// right to left; the region never changes the direction.
pub proof fn law_right_to_left_languages(l: LocaleId)
    ensures
        (direction_of(l) == TextDirection::Rtl) <==> ({
            let lang = lower(l.language@);
            lang == "ar"@ || lang == "he"@ || lang == "fa"@ || lang == "ur"@ || lang == "yi"@
                || lang == "ps"@ || lang == "ckb"@
        }),
        direction_of(l) == TextDirection::Rtl || direction_of(l) == TextDirection::Ltr,
{
}

} // verus!
