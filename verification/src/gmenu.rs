//! Detection of a GTK (GMenu) exporter from a window's X11 properties: the
//! application's unique bus name, its menu path and at least one action
//! group path, all valid D-Bus addresses. Reading the properties and
//! building the menu are the application's part.
use vstd::prelude::*;

use crate::appmenu::{ascii_alnum, ascii_alnum_exec, is_unique_bus_name, text_opt, valid_bus_name};
use crate::text::{eq_str, split_on, split_on_chars, str_chars, views};

verus! {

/// A GTK menu exporter advertised on an X11 window.
#[derive(Debug, Clone, PartialEq, Eq)]
pub struct GtkMenuExporter {
    pub window_id: u32,
    pub bus_name: String,
    pub menu_path: String,
    pub app_action_path: Option<String>,
    pub window_action_path: Option<String>,
}

/// A GTK exporter's object path: `/`, or `/` followed by non-empty
/// `/`-separated elements of ASCII letters, digits and `_` (an element may
/// start with a digit, as in `/org/gtk/Test/windows/0`); 1024 characters
/// at most.
pub open spec fn is_gtk_object_path(v: Seq<char>) -> bool {
    let parts = split_on(v.skip(1), '/');
    if v == "/"@ {
        true
    } else {
        &&& v.len() <= 1024
        &&& v.len() > 1
        &&& v[0] == '/'
        &&& forall|k: int|
            #![trigger parts[k]]
            0 <= k < parts.len() ==> parts[k].len() > 0 && forall|i: int|
                0 <= i < parts[k].len() ==> ascii_alnum(parts[k][i]) || parts[k][i] == '_'
    }
}

/// Whether `value` is a GTK exporter's object path.
pub fn valid_gtk_object_path(value: &str) -> (r: bool)
    ensures
        r == is_gtk_object_path(value@),
{
    let v = str_chars(value);
    if eq_str(&v, "/") {
        return true;
    }
    if v.len() > 1024 || v.len() <= 1 || v[0] != '/' {
        proof {
            reveal_strlit("/");
        }
        return false;
    }
    let body = crate::text::slice_chars(&v, 1, v.len());
    assert(body@ =~= v@.skip(1));
    let parts = split_on_chars(&body, '/');
    let ghost pv = views(parts@);
    let mut k: usize = 0;
    while k < parts.len()
        invariant
            v@ == value@,
            v@ != "/"@,
            v@.len() <= 1024,
            v@.len() > 1,
            v@[0] == '/',
            pv == views(parts@),
            pv == split_on(v@.skip(1), '/'),
            k <= parts@.len(),
            forall|q: int|
                #![trigger pv[q]]
                0 <= q < k ==> pv[q].len() > 0 && forall|i: int|
                    0 <= i < pv[q].len() ==> ascii_alnum(pv[q][i]) || pv[q][i] == '_',
        decreases parts@.len() - k,
    {
        let part = &parts[k];
        assert(pv[k as int] == part@);
        if part.len() == 0 {
            assert(split_on(v@.skip(1), '/')[k as int].len() == 0);
            return false;
        }
        let mut i: usize = 0;
        while i < part.len()
            invariant
                v@ == value@,
                v@ != "/"@,
                pv == split_on(v@.skip(1), '/'),
                k < pv.len(),
                part@ == pv[k as int],
                i <= part@.len(),
                forall|j: int| 0 <= j < i ==> ascii_alnum(part@[j]) || part@[j] == '_',
            decreases part@.len() - i,
        {
            let c = part[i];
            if !(ascii_alnum_exec(c) || c == '_') {
                assert(split_on(v@.skip(1), '/')[k as int][i as int] == c);
                return false;
            }
            i = i + 1;
        }
        k = k + 1;
    }
    true
}

/// The exporter the properties describe, as texts (bus name, menu path,
/// application actions path, window actions path): the menu bar path, or
/// the app-menu path when there is none; every given path valid, the bus
/// name a unique name, and at least one action group.
pub open spec fn gtk_exporter_of(
    bus_name: Option<Seq<char>>,
    menubar_path: Option<Seq<char>>,
    app_menu_path: Option<Seq<char>>,
    app_action_path: Option<Seq<char>>,
    window_action_path: Option<Seq<char>>,
) -> Option<(Seq<char>, Seq<char>, Option<Seq<char>>, Option<Seq<char>>)> {
    let menu = if menubar_path is Some {
        menubar_path
    } else {
        app_menu_path
    };
    if bus_name is None || menu is None {
        None
    } else if !is_unique_bus_name(bus_name->0) || !is_gtk_object_path(menu->0) {
        None
    } else if (app_action_path is Some && !is_gtk_object_path(app_action_path->0)) || (
    window_action_path is Some && !is_gtk_object_path(window_action_path->0)) {
        None
    } else if app_action_path is None && window_action_path is None {
        None
    } else {
        Some((bus_name->0, menu->0, app_action_path, window_action_path))
    }
}

/// Decide a window's GTK menu exporter from its (cleaned) X11 properties.
pub fn gtk_exporter_from_properties(
    window_id: u32,
    bus_name: Option<String>,
    menubar_path: Option<String>,
    app_menu_path: Option<String>,
    app_action_path: Option<String>,
    window_action_path: Option<String>,
) -> (r: Option<GtkMenuExporter>)
    ensures
        match r {
            Some(x) => x.window_id == window_id && gtk_exporter_of(
                text_opt(bus_name),
                text_opt(menubar_path),
                text_opt(app_menu_path),
                text_opt(app_action_path),
                text_opt(window_action_path),
            ) == Some(
                (
                    x.bus_name@,
                    x.menu_path@,
                    text_opt(x.app_action_path),
                    text_opt(x.window_action_path),
                ),
            ),
            None => gtk_exporter_of(
                text_opt(bus_name),
                text_opt(menubar_path),
                text_opt(app_menu_path),
                text_opt(app_action_path),
                text_opt(window_action_path),
            ) is None,
        },
{
    let bus_name = match bus_name {
        Some(b) => b,
        None => {
            return None;
        },
    };
    let menu_path = match menubar_path {
        Some(p) => p,
        None => match app_menu_path {
            Some(p) => p,
            None => {
                return None;
            },
        },
    };
    if !valid_bus_name(bus_name.as_str()) || !valid_gtk_object_path(menu_path.as_str()) {
        return None;
    }
    let app_ok = match &app_action_path {
        Some(p) => valid_gtk_object_path(p.as_str()),
        None => true,
    };
    let win_ok = match &window_action_path {
        Some(p) => valid_gtk_object_path(p.as_str()),
        None => true,
    };
    if !app_ok || !win_ok {
        return None;
    }
    if app_action_path.is_none() && window_action_path.is_none() {
        return None;
    }
    Some(GtkMenuExporter { window_id, bus_name, menu_path, app_action_path, window_action_path })
}

} // verus!
