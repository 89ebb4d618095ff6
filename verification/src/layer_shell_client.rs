//! Pure helpers mapping a [`ChromeSession`] to layer-shell create requests.
use vstd::prelude::*;

use crate::chrome_protocol::{max0, role_name, ChromeRole, ChromeSession, ProtocolChromeSurface};
use crate::text::owned;

verus! {

/// One layer-shell surface the shell intends to map (pure request description).
#[derive(Clone, Debug, PartialEq, Eq)]
pub struct LayerShellChromeRequest {
    pub namespace: String,
    pub role: ChromeRole,
    /// `"background" | "bottom" | "top" | "overlay"`
    pub layer: String,
    pub width: u32,
    pub height: u32,
    pub exclusive_zone: i32,
    pub anchor_top: bool,
    pub anchor_bottom: bool,
    pub anchor_left: bool,
    pub anchor_right: bool,
}

/// The mapped surfaces, in session order.
pub open spec fn mapped_only(s: Seq<ProtocolChromeSurface>) -> Seq<ProtocolChromeSurface>
    decreases s.len(),
{
    if s.len() == 0 {
        Seq::empty()
    } else if s.last().mapped {
        mapped_only(s.drop_last()).push(s.last())
    } else {
        mapped_only(s.drop_last())
    }
}

/// The request that maps surface `s`: menu bar and overlay anchored at the
/// top edge, dock at the bottom, all spanning left to right.
pub open spec fn request_for(r: LayerShellChromeRequest, s: ProtocolChromeSurface) -> bool {
    &&& r.namespace@ == role_name(s.role)
    &&& r.role == s.role
    &&& r.layer@ == s.layer@
    &&& r.width == max0(s.width as int)
    &&& r.height == max0(s.height as int)
    &&& r.exclusive_zone == s.exclusive_zone
    &&& r.anchor_top == (s.role != ChromeRole::Dock)
    &&& r.anchor_bottom == (s.role == ChromeRole::Dock)
    &&& r.anchor_left
    &&& r.anchor_right
}

fn request_of(s: &ProtocolChromeSurface) -> (r: LayerShellChromeRequest)
    ensures
        request_for(r, *s),
{
    let (anchor_top, anchor_bottom) = match s.role {
        ChromeRole::MenuBar | ChromeRole::NotificationOverlay => (true, false),
        ChromeRole::Dock => (false, true),
    };
    let width: u32 = if s.width > 0 {
        s.width as u32
    } else {
        0
    };
    let height: u32 = if s.height > 0 {
        s.height as u32
    } else {
        0
    };
    LayerShellChromeRequest {
        namespace: owned(s.role.as_str()),
        role: s.role,
        layer: s.layer.clone(),
        width,
        height,
        exclusive_zone: s.exclusive_zone,
        anchor_top,
        anchor_bottom,
        anchor_left: true,
        anchor_right: true,
    }
}

/// Convert protocol chrome session into layer-shell create requests: one per
/// mapped surface, in session order.
pub fn chrome_to_layer_shell_requests(session: &ChromeSession) -> (r: Vec<LayerShellChromeRequest>)
    ensures
        r@.len() == mapped_only(session@.0).len(),
        forall|i: int| 0 <= i < r@.len() ==> request_for(#[trigger] r@[i], mapped_only(session@.0)[i]),
{
    let surfaces = session.surfaces();
    let mut out: Vec<LayerShellChromeRequest> = Vec::new();
    let mut i: usize = 0;
    assert(surfaces@.take(0) =~= Seq::<ProtocolChromeSurface>::empty());
    while i < surfaces.len()
        invariant
            surfaces@ == session@.0,
            i <= surfaces@.len(),
            out@.len() == mapped_only(surfaces@.take(i as int)).len(),
            forall|k: int|
                0 <= k < out@.len() ==> request_for(#[trigger] out@[k], mapped_only(surfaces@.take(i as int))[k]),
        decreases surfaces@.len() - i,
    {
        assert(surfaces@.take(i + 1).drop_last() =~= surfaces@.take(i as int));
        assert(surfaces@.take(i + 1).last() == surfaces@[i as int]);
        if surfaces[i].mapped {
            out.push(request_of(&surfaces[i]));
        }
        i = i + 1;
    }
    assert(surfaces@.take(surfaces@.len() as int) =~= surfaces@);
    out
}

/// Result of a live layer-shell bind attempt.
#[derive(Clone, Debug, PartialEq, Eq)]
pub struct LayerShellBindResult {
    pub mapped_namespaces: Vec<String>,
    pub wayland_display: String,
    pub layer_shell_global: bool,
}

/// Pure success description: the requests' namespaces, in order.
pub fn layer_shell_bind_summary(
    display: &str,
    requests: &[LayerShellChromeRequest],
    global_ok: bool,
) -> (r: LayerShellBindResult)
    ensures
        r.mapped_namespaces@.len() == requests@.len(),
        forall|i: int|
            0 <= i < requests@.len() ==> (#[trigger] r.mapped_namespaces@[i])@ == requests@[i].namespace@,
        r.wayland_display@ == display@,
        r.layer_shell_global == global_ok,
{
    let mut names: Vec<String> = Vec::new();
    let mut i: usize = 0;
    while i < requests.len()
        invariant
            i <= requests@.len(),
            names@.len() == i,
            forall|k: int| 0 <= k < i ==> (#[trigger] names@[k])@ == requests@[k].namespace@,
        decreases requests@.len() - i,
    {
        names.push(requests[i].namespace.clone());
        i = i + 1;
    }
    LayerShellBindResult {
        mapped_namespaces: names,
        wayland_display: owned(display),
        layer_shell_global: global_ok,
    }
}

/// Retired bind path: real chrome is mapped elsewhere, so this never binds.
pub fn try_map_layer_shell_chrome(_session: &ChromeSession) -> (r: Option<LayerShellBindResult>)
    ensures
        r is None,
{
    None
}

} // verus!
