//! Protocol-backed session chrome: menu bar, dock, and notification overlay as
//! layer-shell role surfaces, with their pure geometry and focus ring.
use vstd::prelude::*;

use crate::text::owned;

verus! {

/// Layer-shell chrome role for protocol surfaces owned by the shell session.
#[derive(Clone, Copy, Debug, Eq, PartialEq, Hash, Structural)]
pub enum ChromeRole {
    MenuBar,
    Dock,
    NotificationOverlay,
}

/// Namespace string of a role.
pub open spec fn role_name(r: ChromeRole) -> Seq<char> {
    match r {
        ChromeRole::MenuBar => "menu-bar"@,
        ChromeRole::Dock => "dock"@,
        ChromeRole::NotificationOverlay => "notification-overlay"@,
    }
}

/// Default layer-shell layer of a role.
pub open spec fn role_layer(r: ChromeRole) -> Seq<char> {
    match r {
        ChromeRole::MenuBar => "top"@,
        ChromeRole::Dock => "bottom"@,
        ChromeRole::NotificationOverlay => "overlay"@,
    }
}

impl ChromeRole {
    pub fn as_str(self) -> (r: &'static str)
        ensures
            r@ == role_name(self),
    {
        match self {
            ChromeRole::MenuBar => "menu-bar",
            ChromeRole::Dock => "dock",
            ChromeRole::NotificationOverlay => "notification-overlay",
        }
    }

    /// Default layer-shell layer name for this role.
    pub fn default_layer(self) -> (r: &'static str)
        ensures
            r@ == role_layer(self),
    {
        match self {
            ChromeRole::MenuBar => "top",
            ChromeRole::Dock => "bottom",
            ChromeRole::NotificationOverlay => "overlay",
        }
    }
}

/// One protocol chrome surface (layer-shell role), tracked by the session.
#[derive(Clone, Debug, PartialEq, Eq)]
pub struct ProtocolChromeSurface {
    pub id: String,
    pub role: ChromeRole,
    /// Layer name: `"top"`, `"overlay"`, `"bottom"`, `"background"`.
    pub layer: String,
    pub exclusive_zone: i32,
    pub width: i32,
    pub height: i32,
    pub mapped: bool,
}

/// `x` clamped below at zero.
pub open spec fn max0(x: int) -> int {
    if x > 0 {
        x
    } else {
        0
    }
}

fn max0_i32(x: i32) -> (r: i32)
    ensures
        r == max0(x as int),
{
    if x > 0 {
        x
    } else {
        0
    }
}

/// All fields of a surface at once.
pub open spec fn surface_is(
    s: ProtocolChromeSurface,
    id: Seq<char>,
    role: ChromeRole,
    zone: int,
    width: int,
    height: int,
    mapped: bool,
) -> bool {
    &&& s.id@ == id
    &&& s.role == role
    &&& s.layer@ == role_layer(role)
    &&& s.exclusive_zone == zone
    &&& s.width == width
    &&& s.height == height
    &&& s.mapped == mapped
}

/// Index of the first surface with `role`, or `-1`.
pub open spec fn role_index(s: Seq<ProtocolChromeSurface>, role: ChromeRole) -> int
    decreases s.len(),
{
    if s.len() == 0 {
        -1
    } else if s[0].role == role {
        0
    } else {
        let r = role_index(s.drop_first(), role);
        if r < 0 {
            -1
        } else {
            r + 1
        }
    }
}

pub proof fn lemma_role_index(s: Seq<ProtocolChromeSurface>, role: ChromeRole)
    ensures
        -1 <= role_index(s, role) < s.len(),
        role_index(s, role) >= 0 ==> s[role_index(s, role)].role == role,
        role_index(s, role) >= 0 ==> forall|j: int|
            0 <= j < role_index(s, role) ==> s[j].role != role,
        role_index(s, role) < 0 ==> forall|j: int| 0 <= j < s.len() ==> s[j].role != role,
    decreases s.len(),
{
    if s.len() > 0 && s[0].role != role {
        lemma_role_index(s.drop_first(), role);
        let r = role_index(s.drop_first(), role);
        if r < 0 {
            assert forall|j: int| 0 <= j < s.len() implies s[j].role != role by {
                if j > 0 {
                    assert(s[j] == s.drop_first()[j - 1]);
                }
            }
        } else {
            assert forall|j: int| 0 <= j < r + 1 implies s[j].role != role by {
                if j > 0 {
                    assert(s[j] == s.drop_first()[j - 1]);
                }
            }
        }
    }
}

/// Surfaces with the first surface of `role` (if any) set to `mapped`.
pub open spec fn with_mapped(s: Seq<ProtocolChromeSurface>, role: ChromeRole, mapped: bool) -> Seq<
    ProtocolChromeSurface,
> {
    let i = role_index(s, role);
    if i >= 0 {
        s.update(i, ProtocolChromeSurface { mapped, ..s[i] })
    } else {
        s
    }
}

proof fn lemma_role_index_update(
    s: Seq<ProtocolChromeSurface>,
    i: int,
    x: ProtocolChromeSurface,
    role: ChromeRole,
)
    requires
        0 <= i < s.len(),
        x.role == s[i].role,
    ensures
        role_index(s.update(i, x), role) == role_index(s, role),
{
    let t = s.update(i, x);
    lemma_role_index(s, role);
    lemma_role_index(t, role);
    let a = role_index(s, role);
    let b = role_index(t, role);
    assert forall|j: int| 0 <= j < s.len() implies (t[j].role == role) == (s[j].role == role) by {
        if j == i {
        }
    }
    if a >= 0 && b >= 0 {
        if a < b {
            assert(t[a].role == role);
        }
        if b < a {
            assert(s[b].role == role);
        }
    } else if a >= 0 {
        assert(t[a].role == role);
    } else if b >= 0 {
        assert(s[b].role == role);
    }
}

/// Mapping and unmapping a role: the last call wins, whatever came before.
pub proof fn law_last_map_wins(s: Seq<ProtocolChromeSurface>, role: ChromeRole, first: bool, second: bool)
    ensures
        with_mapped(with_mapped(s, role, first), role, second) == with_mapped(s, role, second),
{
    let i = role_index(s, role);
    lemma_role_index(s, role);
    if i >= 0 {
        lemma_role_index_update(s, i, ProtocolChromeSurface { mapped: first, ..s[i] }, role);
        assert(with_mapped(with_mapped(s, role, first), role, second) =~= with_mapped(
            s,
            role,
            second,
        ));
    }
}

/// Placement of one mapped surface in an output of `w`×`h`.
pub open spec fn surface_rect(s: ProtocolChromeSurface, w: int, h: int) -> (
    ChromeRole,
    int,
    int,
    int,
    int,
) {
    match s.role {
        ChromeRole::MenuBar => (s.role, 0, 0, s.width as int, s.height as int),
        ChromeRole::Dock => (s.role, 0, max0(h - s.height), s.width as int, s.height as int),
        ChromeRole::NotificationOverlay => {
            let ww = max0(if s.width < w {
                s.width as int
            } else {
                w
            });
            (s.role, max0(w - ww), 0, ww, s.height as int)
        },
    }
}

/// Rectangles of the mapped surfaces, in session order.
pub open spec fn layout_of(s: Seq<ProtocolChromeSurface>, w: int, h: int) -> Seq<
    (ChromeRole, int, int, int, int),
>
    decreases s.len(),
{
    if s.len() == 0 {
        Seq::empty()
    } else if s.last().mapped {
        layout_of(s.drop_last(), w, h).push(surface_rect(s.last(), w, h))
    } else {
        layout_of(s.drop_last(), w, h)
    }
}

/// A rectangle as `int`s.
pub open spec fn rect_int(r: (ChromeRole, i32, i32, i32, i32)) -> (ChromeRole, int, int, int, int) {
    (r.0, r.1 as int, r.2 as int, r.3 as int, r.4 as int)
}

/// Copy of a surface, field for field.
pub fn clone_surface(s: &ProtocolChromeSurface) -> (r: ProtocolChromeSurface)
    ensures
        r == *s,
{
    ProtocolChromeSurface {
        id: s.id.clone(),
        role: s.role,
        layer: s.layer.clone(),
        exclusive_zone: s.exclusive_zone,
        width: s.width,
        height: s.height,
        mapped: s.mapped,
    }
}

/// Session registry of protocol chrome surfaces (menu bar / dock / overlays).
#[derive(Debug, PartialEq, Eq)]
pub struct ChromeSession {
    surfaces: Vec<ProtocolChromeSurface>,
    output_w: i32,
    output_h: i32,
}

impl View for ChromeSession {
    /// Surfaces in session order, output width, output height.
    type V = (Seq<ProtocolChromeSurface>, int, int);

    closed spec fn view(&self) -> (Seq<ProtocolChromeSurface>, int, int) {
        (self.surfaces@, self.output_w as int, self.output_h as int)
    }
}

impl ChromeSession {
    /// Sizes never go negative.
    #[verifier::type_invariant]
    closed spec fn sizes_nonnegative(self) -> bool {
        &&& self.output_w >= 0
        &&& self.output_h >= 0
        &&& forall|i: int|
            0 <= i < self.surfaces@.len() ==> #[trigger] self.surfaces@[i].width >= 0
                && self.surfaces@[i].height >= 0
    }

    /// Bootstrap mapped menu bar (top, full-width) and dock (bottom, full-width)
    /// as protocol surfaces.
    pub fn bootstrap_default(output_w: i32, output_h: i32, menu_h: i32, dock_h: i32) -> (r: Self)
        ensures
            r@.0.len() == 2,
            surface_is(
                r@.0[0],
                "chrome-menu-bar"@,
                ChromeRole::MenuBar,
                max0(menu_h as int),
                max0(output_w as int),
                max0(menu_h as int),
                true,
            ),
            surface_is(
                r@.0[1],
                "chrome-dock"@,
                ChromeRole::Dock,
                max0(dock_h as int),
                max0(output_w as int),
                max0(dock_h as int),
                true,
            ),
            r@.1 == max0(output_w as int),
            r@.2 == max0(output_h as int),
    {
        let output_w = max0_i32(output_w);
        let output_h = max0_i32(output_h);
        let menu_h = max0_i32(menu_h);
        let dock_h = max0_i32(dock_h);
        let menu = ProtocolChromeSurface {
            id: owned("chrome-menu-bar"),
            role: ChromeRole::MenuBar,
            layer: owned(ChromeRole::MenuBar.default_layer()),
            exclusive_zone: menu_h,
            width: output_w,
            height: menu_h,
            mapped: true,
        };
        let dock = ProtocolChromeSurface {
            id: owned("chrome-dock"),
            role: ChromeRole::Dock,
            layer: owned(ChromeRole::Dock.default_layer()),
            exclusive_zone: dock_h,
            width: output_w,
            height: dock_h,
            mapped: true,
        };
        let mut surfaces: Vec<ProtocolChromeSurface> = Vec::new();
        surfaces.push(menu);
        surfaces.push(dock);
        ChromeSession { surfaces, output_w, output_h }
    }

    pub fn surfaces(&self) -> (r: &[ProtocolChromeSurface])
        ensures
            r@ == self@.0,
    {
        self.surfaces.as_slice()
    }

    pub fn output_size(&self) -> (r: (i32, i32))
        ensures
            r.0 == self@.1,
            r.1 == self@.2,
    {
        (self.output_w, self.output_h)
    }

    fn find_role(&self, role: ChromeRole) -> (r: Option<usize>)
        ensures
            match r {
                Some(i) => i as int == role_index(self@.0, role) && i < self@.0.len(),
                None => role_index(self@.0, role) == -1,
            },
    {
        proof {
            lemma_role_index(self@.0, role);
        }
        let mut i: usize = 0;
        while i < self.surfaces.len()
            invariant
                i <= self.surfaces@.len(),
                forall|j: int| 0 <= j < i ==> self.surfaces@[j].role != role,
                -1 <= role_index(self.surfaces@, role) < self.surfaces@.len(),
                role_index(self.surfaces@, role) >= 0 ==> self.surfaces@[role_index(
                    self.surfaces@,
                    role,
                )].role == role,
                role_index(self.surfaces@, role) >= 0 ==> forall|j: int|
                    0 <= j < role_index(self.surfaces@, role) ==> self.surfaces@[j].role != role,
                role_index(self.surfaces@, role) < 0 ==> forall|j: int|
                    0 <= j < self.surfaces@.len() ==> self.surfaces@[j].role != role,
            decreases self.surfaces@.len() - i,
        {
            if self.surfaces[i].role == role {
                proof {
                    let k = role_index(self.surfaces@, role);
                    if k < 0 {
                        assert(self.surfaces@[i as int].role != role);
                    } else if k < i {
                        assert(self.surfaces@[k].role != role);
                    } else if k > i {
                        assert(self.surfaces@[i as int].role != role);
                    }
                }
                return Some(i);
            }
            i = i + 1;
        }
        None
    }

    fn set_mapped(&mut self, role: ChromeRole, mapped: bool)
        ensures
            final(self)@.1 == old(self)@.1,
            final(self)@.2 == old(self)@.2,
            role_index(old(self)@.0, role) < 0 ==> final(self)@.0 == old(self)@.0,
            role_index(old(self)@.0, role) >= 0 ==> final(self)@.0 == old(self)@.0.update(
                role_index(old(self)@.0, role),
                ProtocolChromeSurface {
                    mapped,
                    ..old(self)@.0[role_index(old(self)@.0, role)]
                },
            ),
    {
        proof {
            use_type_invariant(&*self);
        }
        match self.find_role(role) {
            Some(i) => {
                let old_s = &self.surfaces[i];
                let s = ProtocolChromeSurface {
                    id: old_s.id.clone(),
                    role: old_s.role,
                    layer: old_s.layer.clone(),
                    exclusive_zone: old_s.exclusive_zone,
                    width: old_s.width,
                    height: old_s.height,
                    mapped,
                };
                let ghost before = self.surfaces@;
                let mut v: Vec<ProtocolChromeSurface> = Vec::new();
                std::mem::swap(&mut v, &mut self.surfaces);
                v.set(i, s);
                self.surfaces = v;
                assert(self.surfaces@ =~= before.update(
                    i as int,
                    ProtocolChromeSurface { mapped, ..before[i as int] },
                ));
            },
            None => {},
        }
    }

    /// Map a chrome role surface (no-op if role not present).
    pub fn map(&mut self, role: ChromeRole)
        ensures
            final(self)@.1 == old(self)@.1,
            final(self)@.2 == old(self)@.2,
            final(self)@.0 == with_mapped(old(self)@.0, role, true),
    {
        self.set_mapped(role, true);
    }

    /// Unmap a chrome role surface (no-op if role not present).
    pub fn unmap(&mut self, role: ChromeRole)
        ensures
            final(self)@.1 == old(self)@.1,
            final(self)@.2 == old(self)@.2,
            final(self)@.0 == with_mapped(old(self)@.0, role, false),
    {
        self.set_mapped(role, false);
    }

    /// Whether this role is tracked as protocol chrome in the session.
    pub fn is_protocol_chrome(&self, role: ChromeRole) -> (r: bool)
        ensures
            r == exists|i: int| 0 <= i < self@.0.len() && #[trigger] self@.0[i].role == role,
    {
        proof {
            lemma_role_index(self@.0, role);
        }
        match self.find_role(role) {
            Some(i) => {
                assert(self@.0[i as int].role == role);
                true
            },
            None => false,
        }
    }

    /// Pure geometry for mapped chrome: menu bar top full-width, dock bottom
    /// full-width, overlay top-right. Returns `(role, x, y, w, h)`.
    pub fn layout_rects(&self) -> (r: Vec<(ChromeRole, i32, i32, i32, i32)>)
        ensures
            r@.map_values(|x: (ChromeRole, i32, i32, i32, i32)| rect_int(x)) == layout_of(
                self@.0,
                self@.1,
                self@.2,
            ),
    {
        proof {
            use_type_invariant(self);
        }
        let mut out: Vec<(ChromeRole, i32, i32, i32, i32)> = Vec::new();
        let mut i: usize = 0;
        assert(self.surfaces@.take(0) =~= Seq::<ProtocolChromeSurface>::empty());
        while i < self.surfaces.len()
            invariant
                i <= self.surfaces@.len(),
                self.output_w >= 0,
                self.output_h >= 0,
                forall|k: int|
                    0 <= k < self.surfaces@.len() ==> #[trigger] self.surfaces@[k].width >= 0
                        && self.surfaces@[k].height >= 0,
                out@.map_values(|x: (ChromeRole, i32, i32, i32, i32)| rect_int(x)) == layout_of(
                    self.surfaces@.take(i as int),
                    self.output_w as int,
                    self.output_h as int,
                ),
            decreases self.surfaces@.len() - i,
        {
            let s = &self.surfaces[i];
            assert(s.width >= 0 && s.height >= 0);
            let ghost prev = out@;
            if s.mapped {
                let rect = match s.role {
                    ChromeRole::MenuBar => (s.role, 0, 0, s.width, s.height),
                    ChromeRole::Dock => {
                        let y = max0_i32(self.output_h - s.height);
                        (s.role, 0, y, s.width, s.height)
                    },
                    ChromeRole::NotificationOverlay => {
                        let m = if s.width < self.output_w {
                            s.width
                        } else {
                            self.output_w
                        };
                        let w = max0_i32(m);
                        let x = max0_i32(self.output_w - w);
                        (s.role, x, 0, w, s.height)
                    },
                };
                out.push(rect);
                assert(out@.map_values(|x: (ChromeRole, i32, i32, i32, i32)| rect_int(x))
                    =~= prev.map_values(|x: (ChromeRole, i32, i32, i32, i32)| rect_int(x)).push(
                    rect_int(rect),
                ));
            }
            assert(self.surfaces@.take(i + 1).drop_last() =~= self.surfaces@.take(i as int));
            i = i + 1;
        }
        assert(self.surfaces@.take(self.surfaces@.len() as int) =~= self.surfaces@);
        out
    }

    /// Ensure a notification overlay surface exists (unmapped until mapped);
    /// an existing one is resized.
    pub fn ensure_notification_overlay(&mut self, width: i32, height: i32)
        ensures
            final(self)@.1 == old(self)@.1,
            final(self)@.2 == old(self)@.2,
            role_index(old(self)@.0, ChromeRole::NotificationOverlay) >= 0 ==> final(self)@.0
                == old(self)@.0.update(
                role_index(old(self)@.0, ChromeRole::NotificationOverlay),
                ProtocolChromeSurface {
                    width: max0(width as int) as i32,
                    height: max0(height as int) as i32,
                    ..old(self)@.0[role_index(old(self)@.0, ChromeRole::NotificationOverlay)]
                },
            ),
            role_index(old(self)@.0, ChromeRole::NotificationOverlay) < 0 ==> {
                &&& final(self)@.0.len() == old(self)@.0.len() + 1
                &&& final(self)@.0.drop_last() == old(self)@.0
                &&& surface_is(
                    final(self)@.0.last(),
                    "chrome-notification-overlay"@,
                    ChromeRole::NotificationOverlay,
                    0,
                    max0(width as int),
                    max0(height as int),
                    false,
                )
            },
    {
        proof {
            use_type_invariant(&*self);
        }
        let w = max0_i32(width);
        let h = max0_i32(height);
        match self.find_role(ChromeRole::NotificationOverlay) {
            Some(i) => {
                let old_s = &self.surfaces[i];
                let s = ProtocolChromeSurface {
                    id: old_s.id.clone(),
                    role: old_s.role,
                    layer: old_s.layer.clone(),
                    exclusive_zone: old_s.exclusive_zone,
                    width: w,
                    height: h,
                    mapped: old_s.mapped,
                };
                let ghost before = self.surfaces@;
                let mut v: Vec<ProtocolChromeSurface> = Vec::new();
                std::mem::swap(&mut v, &mut self.surfaces);
                v.set(i, s);
                self.surfaces = v;
                assert(self.surfaces@ =~= before.update(
                    i as int,
                    ProtocolChromeSurface { width: w, height: h, ..before[i as int] },
                ));
            },
            None => {
                let s = ProtocolChromeSurface {
                    id: owned("chrome-notification-overlay"),
                    role: ChromeRole::NotificationOverlay,
                    layer: owned(ChromeRole::NotificationOverlay.default_layer()),
                    exclusive_zone: 0,
                    width: w,
                    height: h,
                    mapped: false,
                };
                let ghost before = self.surfaces@;
                let mut v: Vec<ProtocolChromeSurface> = Vec::new();
                std::mem::swap(&mut v, &mut self.surfaces);
                v.push(s);
                self.surfaces = v;
                assert(self.surfaces@.drop_last() =~= before);
            },
        }
    }
}

impl Clone for ChromeSession {
    fn clone(&self) -> (r: Self)
        ensures
            r@ == self@,
    {
        proof {
            use_type_invariant(self);
        }
        let mut v: Vec<ProtocolChromeSurface> = Vec::new();
        let mut i: usize = 0;
        while i < self.surfaces.len()
            invariant
                i <= self.surfaces@.len(),
                v@ == self.surfaces@.take(i as int),
            decreases self.surfaces@.len() - i,
        {
            v.push(clone_surface(&self.surfaces[i]));
            i = i + 1;
            assert(v@ =~= self.surfaces@.take(i as int));
        }
        assert(v@ =~= self.surfaces@);
        ChromeSession { surfaces: v, output_w: self.output_w, output_h: self.output_h }
    }
}

impl Default for ChromeSession {
    fn default() -> (r: Self)
        ensures
            r@.0.len() == 0,
            r@.1 == 0,
            r@.2 == 0,
    {
        ChromeSession { surfaces: Vec::new(), output_w: 0, output_h: 0 }
    }
}

/// Whether the shell should still paint menu bar / dock with kit widgets:
/// only while layer-shell chrome is not bound.
pub fn should_paint_kit_chrome(layer_shell_bound: bool) -> (r: bool)
    ensures
        r == !layer_shell_bound,
{
    !layer_shell_bound
}

/// One compositor output dimension: the parsed value when it parses as an
/// `i32`, else the default, and at least 1.
pub open spec fn output_dimension(raw: Option<Seq<char>>, default: i32) -> i32 {
    let v = match raw {
        Some(t) => match crate::text::parse_i32(t) {
            Some(x) => x,
            None => default,
        },
        None => default,
    };
    if v < 1 {
        1
    } else {
        v
    }
}

fn output_dimension_exec(raw: Option<&str>, default: i32) -> (r: i32)
    ensures
        r == output_dimension(crate::opt_view(raw), default),
{
    let v = match raw {
        Some(t) => match crate::text::parse_i32_chars(&crate::text::str_chars(t)) {
            Some(x) => x,
            None => default,
        },
        None => default,
    };
    if v < 1 {
        1
    } else {
        v
    }
}

/// Compositor output size from the `SLOPOS_COMPOSITOR_WIDTH` and
/// `SLOPOS_COMPOSITOR_HEIGHT` values as read (default 1024×768, each at
/// least 1).
pub fn session_output_size_from(width: Option<&str>, height: Option<&str>) -> (r: (i32, i32))
    ensures
        r.0 == output_dimension(crate::opt_view(width), 1024),
        r.1 == output_dimension(crate::opt_view(height), 768),
{
    (output_dimension_exec(width, 1024), output_dimension_exec(height, 768))
}

/// Keyboard-only focus ring order for session chrome + desktop content.
#[derive(Clone, Copy, Debug, Eq, PartialEq, Structural)]
pub enum ChromeFocusTarget {
    MenuBar,
    DesktopIcons,
    Windows,
    Dock,
}

/// The focus ring: menu bar, desktop icons, windows, dock.
pub open spec fn focus_ring() -> Seq<ChromeFocusTarget> {
    seq![
        ChromeFocusTarget::MenuBar,
        ChromeFocusTarget::DesktopIcons,
        ChromeFocusTarget::Windows,
        ChromeFocusTarget::Dock,
    ]
}

/// Position of a target in the focus ring.
pub open spec fn focus_index(t: ChromeFocusTarget) -> int {
    match t {
        ChromeFocusTarget::MenuBar => 0,
        ChromeFocusTarget::DesktopIcons => 1,
        ChromeFocusTarget::Windows => 2,
        ChromeFocusTarget::Dock => 3,
    }
}

/// Pure focus cycle for keyboard-only navigation.
pub fn chrome_focus_order() -> (r: Vec<ChromeFocusTarget>)
    ensures
        r@ == focus_ring(),
{
    let mut v: Vec<ChromeFocusTarget> = Vec::new();
    v.push(ChromeFocusTarget::MenuBar);
    v.push(ChromeFocusTarget::DesktopIcons);
    v.push(ChromeFocusTarget::Windows);
    v.push(ChromeFocusTarget::Dock);
    assert(v@ =~= focus_ring());
    v
}

/// Target after `t` in the focus ring (wraps).
pub open spec fn next_focus(t: ChromeFocusTarget) -> ChromeFocusTarget {
    focus_ring()[(focus_index(t) + 1) % 4]
}

/// Next focus target after `current` (wraps).
pub fn next_chrome_focus(current: ChromeFocusTarget) -> (r: ChromeFocusTarget)
    ensures
        r == next_focus(current),
{
    let order = chrome_focus_order();
    let i: usize = match current {
        ChromeFocusTarget::MenuBar => 0,
        ChromeFocusTarget::DesktopIcons => 1,
        ChromeFocusTarget::Windows => 2,
        ChromeFocusTarget::Dock => 3,
    };
    assert(order@[i as int] == current);
    order[(i + 1) % 4]
}

} // verus!
