//! Dock settings: the default pinned applications, pinning and unpinning,
//! and the placement, alignment and dodge settings read from the
//! environment or the user's configuration files (which the application
//! reads and hands over as text).
use vstd::prelude::*;

use crate::text::{
    eq_ignore_case, eq_ignore_case_str, eq_str, lower, lower_chars, owned, str_chars, string_views,
    trim, trim_chars,
};

verus! {

/// Screen edge the dock sits on.
#[derive(Clone, Copy, PartialEq, Eq, Debug, Structural)]
pub enum DockPosition {
    Bottom,
    Left,
    Right,
}

/// Where along its edge the dock sits.
#[derive(Clone, Copy, PartialEq, Eq, Debug, Structural)]
pub enum DockAlignment {
    Center,
    Start,
    End,
}

/// A pinned dock application.
#[derive(Clone, Debug)]
pub struct PinnedItem {
    pub id: String,
    pub name: String,
    pub icon: String,
    pub fallback_icon: String,
    /// Command to run (the `exec` key of the saved list).
    pub command: String,
    pub args: Vec<String>,
}

/// A pinned item as texts: id, name, icon, fallback icon, command, arguments.
pub open spec fn pinned_view(p: PinnedItem) -> (Seq<char>, Seq<char>, Seq<char>, Seq<char>, Seq<char>, Seq<Seq<char>>) {
    (p.id@, p.name@, p.icon@, p.fallback_icon@, p.command@, string_views(p.args@))
}

/// The applications pinned by default (id, name, icon, fallback icon,
/// command; none takes arguments).
pub open spec fn default_pins() -> Seq<(Seq<char>, Seq<char>, Seq<char>, Seq<char>, Seq<char>)> {
    seq![
        ("pcmanfm"@, "Files"@, "folder.svg"@, "folder-symbolic"@, "pcmanfm"@),
        ("terminal"@, "Terminal"@, "terminal.svg"@, "utilities-terminal-symbolic"@, "xfce4-terminal"@),
        ("textedit"@, "Text Editor"@, "textedit.svg"@, "accessories-text-editor-symbolic"@, "mousepad"@),
        ("browser"@, "Web Browser"@, "browser.svg"@, "web-browser-symbolic"@, "firefox"@),
        ("games"@, "Games"@, "game.svg"@, "applications-games-symbolic"@, "chocolate-doom"@),
        ("catalogue"@, "Software Catalogue"@, "software.svg"@, "system-software-install-symbolic"@, "slopos-catalogue"@),
        ("settings"@, "System Settings"@, "settings.svg"@, "preferences-system-symbolic"@, "slopos-settings"@),
    ]
}

fn pin(id: &str, name: &str, icon: &str, fallback_icon: &str, command: &str) -> (r: PinnedItem)
    ensures
        pinned_view(r) == (id@, name@, icon@, fallback_icon@, command@, Seq::<Seq<char>>::empty()),
{
    let r = PinnedItem {
        id: owned(id),
        name: owned(name),
        icon: owned(icon),
        fallback_icon: owned(fallback_icon),
        command: owned(command),
        args: Vec::new(),
    };
    assert(string_views(r.args@) =~= Seq::<Seq<char>>::empty());
    r
}

/// The default pinned applications, in dock order.
pub fn default_pinned_items() -> (r: Vec<PinnedItem>)
    ensures
        r@.len() == default_pins().len(),
        forall|i: int|
            0 <= i < r@.len() ==> {
                let d = default_pins()[i];
                pinned_view(#[trigger] r@[i]) == (d.0, d.1, d.2, d.3, d.4, Seq::<Seq<char>>::empty())
            },
{
    let mut v: Vec<PinnedItem> = Vec::new();
    v.push(pin("pcmanfm", "Files", "folder.svg", "folder-symbolic", "pcmanfm"));
    v.push(pin("terminal", "Terminal", "terminal.svg", "utilities-terminal-symbolic", "xfce4-terminal"));
    v.push(pin("textedit", "Text Editor", "textedit.svg", "accessories-text-editor-symbolic", "mousepad"));
    v.push(pin("browser", "Web Browser", "browser.svg", "web-browser-symbolic", "firefox"));
    v.push(pin("games", "Games", "game.svg", "applications-games-symbolic", "chocolate-doom"));
    v.push(pin("catalogue", "Software Catalogue", "software.svg", "system-software-install-symbolic", "slopos-catalogue"));
    v.push(pin("settings", "System Settings", "settings.svg", "preferences-system-symbolic", "slopos-settings"));
    v
}

/// Some item has this id.
pub open spec fn has_pin(s: Seq<PinnedItem>, id: Seq<char>) -> bool {
    exists|i: int| 0 <= i < s.len() && (#[trigger] s[i]).id@ == id
}

/// Pin an application unless one with its id is pinned; true when the list
/// changed (and is to be saved).
pub fn pin_application(items: &mut Vec<PinnedItem>, item: PinnedItem) -> (r: bool)
    ensures
        r == !has_pin(old(items)@, item.id@),
        r ==> final(items)@ == old(items)@.push(item),
        !r ==> final(items)@ == old(items)@,
{
    let idv = str_chars(item.id.as_str());
    let mut i: usize = 0;
    while i < items.len()
        invariant
            i <= items@.len(),
            idv@ == item.id@,
            forall|j: int| 0 <= j < i ==> (#[trigger] items@[j]).id@ != item.id@,
        decreases items@.len() - i,
    {
        let v = str_chars(items[i].id.as_str());
        if crate::text::chars_eq(&v, &idv) {
            assert(items@[i as int].id@ == item.id@);
            return false;
        }
        i = i + 1;
    }
    items.push(item);
    true
}

/// Items whose id is not `id`, in order.
pub open spec fn without_pin(s: Seq<PinnedItem>, id: Seq<char>) -> Seq<PinnedItem>
    decreases s.len(),
{
    if s.len() == 0 {
        Seq::empty()
    } else if s.last().id@ == id {
        without_pin(s.drop_last(), id)
    } else {
        without_pin(s.drop_last(), id).push(s.last())
    }
}

/// Unpin every item with this id.
pub fn unpin_application(items: &mut Vec<PinnedItem>, id: &str)
    ensures
        final(items)@ == without_pin(old(items)@, id@),
{
    let idv = str_chars(id);
    let mut kept: Vec<PinnedItem> = Vec::new();
    let mut rest: Vec<PinnedItem> = Vec::new();
    std::mem::swap(&mut rest, items);
    let ghost all = rest@;
    let n = rest.len();
    assert(all.len() <= usize::MAX);
    let mut k: usize = 0;
    assert(all.take(0) =~= Seq::<PinnedItem>::empty());
    assert(all.skip(0) =~= all);
    while rest.len() > 0
        invariant
            idv@ == id@,
            k <= all.len(),
            all.len() <= usize::MAX,
            rest@ == all.skip(k as int),
            kept@ == without_pin(all.take(k as int), id@),
        decreases rest@.len(),
    {
        let x = rest.remove(0);
        assert(x == all[k as int]);
        assert(all.take(k + 1).drop_last() =~= all.take(k as int));
        assert(all.take(k + 1).last() == all[k as int]);
        assert(rest@ =~= all.skip(k + 1));
        let v = str_chars(x.id.as_str());
        if !crate::text::chars_eq(&v, &idv) {
            kept.push(x);
        }
        k = k + 1;
    }
    assert(k == all.len());
    assert(all.take(all.len() as int) =~= all);
    *items = kept;
}

/// A setting's text trimmed and ASCII-lower-cased.
pub open spec fn setting(v: Seq<char>) -> Seq<char> {
    lower(trim(v))
}

fn setting_exec(v: &str) -> (r: Vec<char>)
    ensures
        r@ == setting(v@),
{
    let c = str_chars(v);
    let t = trim_chars(&c);
    lower_chars(&t)
}

/// Dock edge: `SLOPOS_DOCK_POSITION` (`left`, `right` or `bottom`) wins,
/// then the `dock_position` file (`left` or `right`), else the bottom.
pub open spec fn dock_position_of(env_value: Option<Seq<char>>, file_value: Option<Seq<char>>) -> DockPosition {
    let e = match env_value {
        Some(v) => setting(v),
        None => Seq::empty(),
    };
    let f = match file_value {
        Some(v) => setting(v),
        None => Seq::empty(),
    };
    if env_value is Some && e == "left"@ {
        DockPosition::Left
    } else if env_value is Some && e == "right"@ {
        DockPosition::Right
    } else if env_value is Some && e == "bottom"@ {
        DockPosition::Bottom
    } else if file_value is Some && f == "left"@ {
        DockPosition::Left
    } else if file_value is Some && f == "right"@ {
        DockPosition::Right
    } else {
        DockPosition::Bottom
    }
}

/// The configured dock edge, from the environment variable's value and the
/// configuration file's text (each when present).
pub fn current_dock_position(env_value: Option<&str>, file_value: Option<&str>) -> (r: DockPosition)
    ensures
        r == dock_position_of(
            match env_value {
                Some(v) => Some(v@),
                None => None,
            },
            match file_value {
                Some(v) => Some(v@),
                None => None,
            },
        ),
{
    if let Some(v) = env_value {
        let p = setting_exec(v);
        if eq_str(&p, "left") {
            return DockPosition::Left;
        }
        if eq_str(&p, "right") {
            return DockPosition::Right;
        }
        if eq_str(&p, "bottom") {
            return DockPosition::Bottom;
        }
    }
    if let Some(v) = file_value {
        let p = setting_exec(v);
        if eq_str(&p, "left") {
            return DockPosition::Left;
        }
        if eq_str(&p, "right") {
            return DockPosition::Right;
        }
    }
    DockPosition::Bottom
}

/// Alignment named by a setting: `start`, `left` or `top` for the start;
/// `end`, `right` or `bottom` for the end.
pub open spec fn alignment_named(a: Seq<char>) -> Option<DockAlignment> {
    if a == "start"@ || a == "left"@ || a == "top"@ {
        Some(DockAlignment::Start)
    } else if a == "end"@ || a == "right"@ || a == "bottom"@ {
        Some(DockAlignment::End)
    } else {
        None
    }
}

fn alignment_named_exec(a: &[char]) -> (r: Option<DockAlignment>)
    ensures
        r == alignment_named(a@),
{
    if eq_str(a, "start") || eq_str(a, "left") || eq_str(a, "top") {
        Some(DockAlignment::Start)
    } else if eq_str(a, "end") || eq_str(a, "right") || eq_str(a, "bottom") {
        Some(DockAlignment::End)
    } else {
        None
    }
}

/// Dock alignment: `SLOPOS_DOCK_ALIGNMENT` wins when it names one, then the
/// `dock_alignment` file, else centred.
pub open spec fn dock_alignment_of(env_value: Option<Seq<char>>, file_value: Option<Seq<char>>) -> DockAlignment {
    match env_value {
        Some(v) if alignment_named(setting(v)) is Some => alignment_named(setting(v))->Some_0,
        _ => match file_value {
            Some(v) if alignment_named(setting(v)) is Some => alignment_named(setting(v))->Some_0,
            _ => DockAlignment::Center,
        },
    }
}

/// The configured dock alignment, from the environment variable's value and
/// the configuration file's text (each when present).
pub fn current_dock_alignment(env_value: Option<&str>, file_value: Option<&str>) -> (r: DockAlignment)
    ensures
        r == dock_alignment_of(
            match env_value {
                Some(v) => Some(v@),
                None => None,
            },
            match file_value {
                Some(v) => Some(v@),
                None => None,
            },
        ),
{
    if let Some(v) = env_value {
        let a = setting_exec(v);
        if let Some(x) = alignment_named_exec(&a) {
            return x;
        }
    }
    if let Some(v) = file_value {
        let a = setting_exec(v);
        if let Some(x) = alignment_named_exec(&a) {
            return x;
        }
    }
    DockAlignment::Center
}

/// Whether the dock dodges windows: the `dock_dodge` file holds `1`, `true`
/// or `yes` (trimmed, ASCII case ignored for the words).
pub fn dock_dodge_enabled(file_value: Option<&str>) -> (r: bool)
    ensures
        r == match file_value {
            Some(v) => trim(v@) == "1"@ || eq_ignore_case(trim(v@), "true"@) || eq_ignore_case(
                trim(v@),
                "yes"@,
            ),
            None => false,
        },
{
    match file_value {
        Some(v) => {
            let c = str_chars(v);
            let t = trim_chars(&c);
            eq_str(&t, "1") || eq_ignore_case_str(&t, "true") || eq_ignore_case_str(&t, "yes")
        },
        None => false,
    }
}

proof fn lemma_without_absent(s: Seq<PinnedItem>, id: Seq<char>)
    requires
        !has_pin(s, id),
    ensures
        without_pin(s, id) == s,
    decreases s.len(),
{
    if s.len() > 0 {
        assert(!has_pin(s.drop_last(), id)) by {
            if has_pin(s.drop_last(), id) {
                let i = choose|i: int| 0 <= i < s.drop_last().len() && (#[trigger] s.drop_last()[i]).id@ == id;
                assert(s[i] == s.drop_last()[i]);
            }
        }
        lemma_without_absent(s.drop_last(), id);
        assert(s[s.len() - 1].id@ != id);
        assert(s.drop_last().push(s.last()) =~= s);
    }
}

/// Pinning an application that was not pinned and then unpinning it leaves
/// the pinned list as it was.
pub proof fn law_pin_then_unpin_restores(s: Seq<PinnedItem>, item: PinnedItem)
    requires
        !has_pin(s, item.id@),
    ensures
        without_pin(s.push(item), item.id@) == s,
{
    assert(s.push(item).drop_last() =~= s);
    lemma_without_absent(s, item.id@);
}

/// Where a dock icon file is looked for, in order: under the
/// `SLOPOS_SHARE_DIR` value when set (directly and under `slopos-i`), then
/// the working directory's theme, then the two system installs.
pub open spec fn dock_icon_paths(share_dir: Option<Seq<char>>, file_name: Seq<char>) -> Seq<Seq<char>> {
    let fixed = seq![
        "themes/platinum/icons/"@ + file_name,
        "/usr/local/share/slopos-i/themes/platinum/icons/"@ + file_name,
        "/usr/share/slopos-i/themes/platinum/icons/"@ + file_name,
    ];
    match share_dir {
        Some(s) => seq![
            s + "/themes/platinum/icons/"@ + file_name,
            s + "/slopos-i/themes/platinum/icons/"@ + file_name,
        ] + fixed,
        None => fixed,
    }
}

fn join2(a: &str, b: &str) -> (r: String)
    ensures
        r@ == a@ + b@,
{
    let mut v = str_chars(a);
    crate::text::push_str_chars(&mut v, b);
    crate::text::chars_to_string(&v)
}

fn join3(a: &str, b: &str, c: &str) -> (r: String)
    ensures
        r@ == a@ + b@ + c@,
{
    let mut v = str_chars(a);
    crate::text::push_str_chars(&mut v, b);
    crate::text::push_str_chars(&mut v, c);
    crate::text::chars_to_string(&v)
}

/// Candidate paths of a dock icon file (see [`dock_icon_paths`]).
pub fn dock_icon_candidates(share_dir: Option<&str>, file_name: &str) -> (r: Vec<String>)
    ensures
        string_views(r@) == dock_icon_paths(crate::opt_view(share_dir), file_name@),
{
    let mut out: Vec<String> = Vec::new();
    if let Some(s) = share_dir {
        out.push(join3(s, "/themes/platinum/icons/", file_name));
        out.push(join3(s, "/slopos-i/themes/platinum/icons/", file_name));
    }
    out.push(join2("themes/platinum/icons/", file_name));
    out.push(join2("/usr/local/share/slopos-i/themes/platinum/icons/", file_name));
    out.push(join2("/usr/share/slopos-i/themes/platinum/icons/", file_name));
    assert(string_views(out@) =~= dock_icon_paths(crate::opt_view(share_dir), file_name@));
    out
}

/// `x` fits an `i32`.
pub open spec fn fits_i32(x: int) -> bool {
    i32::MIN <= x <= i32::MAX
}

/// Length of the dock along its edge before it is capped: 46 pixels per
/// item plus 60.
pub open spec fn dock_run(items: int) -> int {
    items * 46 + 60
}

/// The smaller of two integers.
pub open spec fn min_int(a: int, b: int) -> int {
    if a <= b {
        a
    } else {
        b
    }
}

/// The larger of `a` and 0.
pub open spec fn at_least_zero(a: int) -> int {
    if a < 0 {
        0
    } else {
        a
    }
}

/// Dock window geometry `(x, y, width, height)` on a monitor at
/// `(mon_x, mon_y)` of size `sw × sh`: along the bottom it is 54 high and
/// `min(run, sw - 24)` wide, 6 above the bottom (at least 28 from the top);
/// on a side it is 54 wide and `min(run, sh - 60)` high, 6 from that side.
/// Centered, or 12 (bottom) / 32 (side) from the start, or 12 from the end.
pub open spec fn dock_geometry(
    pos: DockPosition,
    align: DockAlignment,
    sw: int,
    sh: int,
    mon_x: int,
    mon_y: int,
    items: int,
) -> (int, int, int, int) {
    match pos {
        DockPosition::Bottom => {
            let width = min_int(dock_run(items), sw - 24);
            let x = match align {
                DockAlignment::Center => mon_x + at_least_zero(sw - width) / 2,
                DockAlignment::Start => mon_x + 12,
                DockAlignment::End => mon_x + sw - width - 12,
            };
            let y = mon_y + (if sh - 54 - 6 < 28 {
                28
            } else {
                sh - 54 - 6
            });
            (x, y, width, 54)
        },
        _ => {
            let height = min_int(dock_run(items), sh - 60);
            let x = if pos == DockPosition::Left {
                mon_x + 6
            } else {
                mon_x + sw - 54 - 6
            };
            let y = match align {
                DockAlignment::Center => mon_y + at_least_zero(sh - height) / 2,
                DockAlignment::Start => mon_y + 32,
                DockAlignment::End => mon_y + sh - height - 12,
            };
            (x, y, 54, height)
        },
    }
}

/// Every step of the geometry computation stays within `i32` (as the
/// shell computes it, in `i32`).
pub open spec fn dock_geometry_fits(
    pos: DockPosition,
    align: DockAlignment,
    sw: int,
    sh: int,
    mon_x: int,
    mon_y: int,
    items: int,
) -> bool {
    &&& fits_i32(items * 46)
    &&& fits_i32(dock_run(items))
    &&& match pos {
        DockPosition::Bottom => {
            let width = min_int(dock_run(items), sw - 24);
            &&& fits_i32(sw - 24)
            &&& match align {
                DockAlignment::Center => fits_i32(sw - width) && fits_i32(
                    mon_x + at_least_zero(sw - width) / 2,
                ),
                DockAlignment::Start => fits_i32(mon_x + 12),
                DockAlignment::End => fits_i32(mon_x + sw) && fits_i32(mon_x + sw - width)
                    && fits_i32(mon_x + sw - width - 12),
            }
            &&& fits_i32(sh - 54) && fits_i32(sh - 60)
            &&& fits_i32(mon_y + (if sh - 60 < 28 {
                28
            } else {
                sh - 60
            }))
        },
        _ => {
            let height = min_int(dock_run(items), sh - 60);
            &&& fits_i32(sh - 60)
            &&& (if pos == DockPosition::Left {
                fits_i32(mon_x + 6)
            } else {
                fits_i32(mon_x + sw) && fits_i32(mon_x + sw - 54) && fits_i32(mon_x + sw - 60)
            })
            &&& match align {
                DockAlignment::Center => fits_i32(sh - height) && fits_i32(
                    mon_y + at_least_zero(sh - height) / 2,
                ),
                DockAlignment::Start => fits_i32(mon_y + 32),
                DockAlignment::End => fits_i32(mon_y + sh) && fits_i32(mon_y + sh - height)
                    && fits_i32(mon_y + sh - height - 12),
            }
        },
    }
}

/// Where the dock window goes and how large it is, for `items_count`
/// buttons on a monitor at `(mon_x, mon_y)` of size
/// `screen_width × screen_height`: `(x, y, width, height)`.
pub fn dock_window_geometry(
    pos: DockPosition,
    align: DockAlignment,
    screen_width: i32,
    screen_height: i32,
    mon_x: i32,
    mon_y: i32,
    items_count: usize,
) -> (r: (i32, i32, i32, i32))
    requires
        dock_geometry_fits(pos, align, screen_width as int, screen_height as int, mon_x as int, mon_y as int, items_count as int),
    ensures
        (r.0 as int, r.1 as int, r.2 as int, r.3 as int) == dock_geometry(
            pos,
            align,
            screen_width as int,
            screen_height as int,
            mon_x as int,
            mon_y as int,
            items_count as int,
        ),
{
    assert(items_count <= i32::MAX) by (nonlinear_arith)
        requires
            fits_i32(items_count * 46),
    ;
    let items = items_count as i32;
    let run = items * 46 + 60;
    match pos {
        DockPosition::Bottom => {
            let cap = screen_width - 24;
            let width = if run <= cap {
                run
            } else {
                cap
            };
            let height: i32 = 54;
            let x = match align {
                DockAlignment::Center => {
                    let d = screen_width - width;
                    mon_x + (if d < 0 {
                        0
                    } else {
                        d
                    }) / 2
                },
                DockAlignment::Start => mon_x + 12,
                DockAlignment::End => mon_x + screen_width - width - 12,
            };
            let room = screen_height - height - 6;
            let y = mon_y + if room < 28 {
                28
            } else {
                room
            };
            (x, y, width, height)
        },
        _ => {
            let cap = screen_height - 60;
            let height = if run <= cap {
                run
            } else {
                cap
            };
            let width: i32 = 54;
            let x = match pos {
                DockPosition::Left => mon_x + 6,
                _ => mon_x + screen_width - width - 6,
            };
            let y = match align {
                DockAlignment::Center => {
                    let d = screen_height - height;
                    mon_y + (if d < 0 {
                        0
                    } else {
                        d
                    }) / 2
                },
                DockAlignment::Start => mon_y + 32,
                DockAlignment::End => mon_y + screen_height - height - 12,
            };
            (x, y, width, height)
        },
    }
}

/// What the dock window does after a change of the active window or of
/// the pointer.
#[derive(Debug, Clone, Copy, PartialEq, Eq, Structural)]
pub enum DockVisibilityChange {
    /// Hide the dock.
    Hide,
    /// Show it again, kept above other windows.
    Show,
    /// Place it again and show it above other windows (pointer at its edge).
    Reveal,
    /// Leave it as it is.
    NoChange,
}

/// The dock hides under a fullscreen window, and under a maximized one when
/// dodging is on.
pub open spec fn dock_hidden_for(fullscreen: bool, maximized: bool, dodge: bool) -> bool {
    fullscreen || (dodge && maximized)
}

/// After the active window's state changed: hide the dock when it must
/// hide and is shown, show it when it may show and is hidden.
pub open spec fn visibility_for_window_state(
    fullscreen: bool,
    maximized: bool,
    dodge: bool,
    visible: bool,
) -> DockVisibilityChange {
    if dock_hidden_for(fullscreen, maximized, dodge) {
        if visible {
            DockVisibilityChange::Hide
        } else {
            DockVisibilityChange::NoChange
        }
    } else if !visible {
        DockVisibilityChange::Show
    } else {
        DockVisibilityChange::NoChange
    }
}

/// When the pointer reaches or leaves the dock's edge while a maximized
/// window hides a dodging dock: reveal it at the edge, hide it away from
/// it. Under a fullscreen window, or without dodging over a maximized
/// window, nothing changes.
pub open spec fn visibility_at_pointer_edge(
    fullscreen: bool,
    maximized: bool,
    dodge: bool,
    visible: bool,
    near_edge: bool,
) -> DockVisibilityChange {
    if fullscreen || !dodge || !maximized {
        DockVisibilityChange::NoChange
    } else if near_edge && !visible {
        DockVisibilityChange::Reveal
    } else if !near_edge && visible {
        DockVisibilityChange::Hide
    } else {
        DockVisibilityChange::NoChange
    }
}

/// Decide the dock's visibility after the active window's state changed.
pub fn dock_visibility_for_window_state(
    fullscreen: bool,
    maximized: bool,
    dodge: bool,
    visible: bool,
) -> (r: DockVisibilityChange)
    ensures
        r == visibility_for_window_state(fullscreen, maximized, dodge, visible),
{
    if fullscreen || (dodge && maximized) {
        if visible {
            DockVisibilityChange::Hide
        } else {
            DockVisibilityChange::NoChange
        }
    } else if !visible {
        DockVisibilityChange::Show
    } else {
        DockVisibilityChange::NoChange
    }
}

/// Decide the dock's visibility when the pointer reaches or leaves its edge.
pub fn dock_visibility_at_pointer_edge(
    fullscreen: bool,
    maximized: bool,
    dodge: bool,
    visible: bool,
    near_edge: bool,
) -> (r: DockVisibilityChange)
    ensures
        r == visibility_at_pointer_edge(fullscreen, maximized, dodge, visible, near_edge),
{
    if fullscreen {
        return DockVisibilityChange::NoChange;
    }
    if !dodge || !maximized {
        return DockVisibilityChange::NoChange;
    }
    if near_edge && !visible {
        DockVisibilityChange::Reveal
    } else if !near_edge && visible {
        DockVisibilityChange::Hide
    } else {
        DockVisibilityChange::NoChange
    }
}

/// The dock never comes up over a fullscreen window: neither a window
/// state change nor the pointer at its edge shows or reveals it then.
pub proof fn law_fullscreen_keeps_dock_down(
    maximized: bool,
    dodge: bool,
    visible: bool,
    near_edge: bool,
)
    ensures
        visibility_for_window_state(true, maximized, dodge, visible)
            != DockVisibilityChange::Show,
        visibility_for_window_state(true, maximized, dodge, visible)
            != DockVisibilityChange::Reveal,
        visibility_at_pointer_edge(true, maximized, dodge, visible, near_edge)
            == DockVisibilityChange::NoChange,
{
}

/// Without dodging and without a fullscreen window, a hidden dock always
/// comes back and a shown one stays.
pub proof fn law_no_dodge_keeps_dock_up(maximized: bool, visible: bool)
    ensures
        visibility_for_window_state(false, maximized, false, visible) == (if visible {
            DockVisibilityChange::NoChange
        } else {
            DockVisibilityChange::Show
        }),
{
}

} // verus!
