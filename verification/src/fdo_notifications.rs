//! FreeDesktop Notifications (org.freedesktop.Notifications) server state.
//!
//! Id allocation, Notify / CloseNotification semantics and notify-send style
//! argument parsing, without any bus connection.
use vstd::prelude::*;

use crate::notification_center::NotificationPriority;
use crate::text::{eq_str, lower, lower_chars, owned, starts_with, starts_with_str, str_chars, trim, trim_chars};
use std::collections::HashMap;

verus! {

broadcast use vstd::std_specs::hash::group_hash_axioms;

/// FreeDesktop urgency hint values (`hints["urgency"]` as BYTE: 0, 1, 2).
#[derive(Debug, Clone, Copy, PartialEq, Eq, Structural)]
pub enum Urgency {
    Low,
    Normal,
    Critical,
}

impl Default for Urgency {
    fn default() -> (r: Self)
        ensures
            r == Urgency::Normal,
    {
        Urgency::Normal
    }
}

/// Wire byte of an urgency.
pub open spec fn urgency_byte(u: Urgency) -> u8 {
    match u {
        Urgency::Low => 0,
        Urgency::Normal => 1,
        Urgency::Critical => 2,
    }
}

/// Urgency of a wire byte (unknown values are Normal).
pub open spec fn urgency_of_byte(b: u8) -> Urgency {
    if b == 0 {
        Urgency::Low
    } else if b == 2 {
        Urgency::Critical
    } else {
        Urgency::Normal
    }
}

/// Urgency named by notify-send text (already trimmed and lower-cased).
pub open spec fn urgency_of_name(t: Seq<char>) -> Option<Urgency> {
    if t == "low"@ || t == "0"@ {
        Some(Urgency::Low)
    } else if t == "normal"@ || t == "1"@ {
        Some(Urgency::Normal)
    } else if t == "critical"@ || t == "2"@ {
        Some(Urgency::Critical)
    } else {
        None
    }
}

/// Name of an urgency.
pub open spec fn urgency_name(u: Urgency) -> Seq<char> {
    match u {
        Urgency::Low => "low"@,
        Urgency::Normal => "normal"@,
        Urgency::Critical => "critical"@,
    }
}

impl Urgency {
    /// Parse FreeDesktop urgency byte (unknown values → Normal).
    pub fn from_u8(value: u8) -> (r: Self)
        ensures
            r == urgency_of_byte(value),
    {
        match value {
            0 => Urgency::Low,
            2 => Urgency::Critical,
            _ => Urgency::Normal,
        }
    }

    /// Parse notify-send style urgency (`low` / `normal` / `critical` or
    /// `0` / `1` / `2`, trimmed, ASCII case ignored).
    pub fn parse(s: &str) -> (r: Option<Self>)
        ensures
            r == urgency_of_name(lower(trim(s@))),
    {
        let raw = str_chars(s);
        let t = trim_chars(&raw);
        let l = lower_chars(&t);
        if eq_str(&l, "low") || eq_str(&l, "0") {
            Some(Urgency::Low)
        } else if eq_str(&l, "normal") || eq_str(&l, "1") {
            Some(Urgency::Normal)
        } else if eq_str(&l, "critical") || eq_str(&l, "2") {
            Some(Urgency::Critical)
        } else {
            None
        }
    }

    pub fn as_u8(self) -> (r: u8)
        ensures
            r == urgency_byte(self),
    {
        match self {
            Urgency::Low => 0,
            Urgency::Normal => 1,
            Urgency::Critical => 2,
        }
    }

    pub fn as_str(self) -> (r: &'static str)
        ensures
            r@ == urgency_name(self),
    {
        match self {
            Urgency::Low => "low",
            Urgency::Normal => "normal",
            Urgency::Critical => "critical",
        }
    }

    /// Map to in-process shell banner priority.
    pub fn to_priority(self) -> (r: NotificationPriority)
        ensures
            r == match self {
                Urgency::Low => NotificationPriority::Low,
                Urgency::Normal => NotificationPriority::Normal,
                Urgency::Critical => NotificationPriority::Critical,
            },
    {
        match self {
            Urgency::Low => NotificationPriority::Low,
            Urgency::Normal => NotificationPriority::Normal,
            Urgency::Critical => NotificationPriority::Critical,
        }
    }
}

/// A byte round-trips through its urgency exactly for 0, 1 and 2.
pub proof fn urgency_byte_roundtrip(u: Urgency, b: u8)
    ensures
        urgency_of_byte(urgency_byte(u)) == u,
        b <= 2 ==> urgency_byte(urgency_of_byte(b)) == b,
{
}

/// Notification payload (the FreeDesktop Notify fields the shell uses).
#[derive(Debug, Clone, PartialEq, Eq)]
pub struct NotificationPayload {
    pub app_name: String,
    pub summary: String,
    pub body: String,
    pub replaces_id: u32,
    pub urgency: Urgency,
    pub app_icon: String,
    /// Milliseconds; FreeDesktop uses `-1` for default, `0` for never expire.
    pub expire_timeout_ms: i32,
}

impl NotificationPayload {
    /// A payload with no replaced id, Normal urgency, no icon and the default timeout.
    pub fn new(app_name: &str, summary: &str, body: &str) -> (r: Self)
        ensures
            r.app_name@ == app_name@,
            r.summary@ == summary@,
            r.body@ == body@,
            r.replaces_id == 0,
            r.urgency == Urgency::Normal,
            r.app_icon@ == Seq::<char>::empty(),
            r.expire_timeout_ms == -1,
    {
        NotificationPayload {
            app_name: owned(app_name),
            summary: owned(summary),
            body: owned(body),
            replaces_id: 0,
            urgency: Urgency::Normal,
            app_icon: String::new(),
            expire_timeout_ms: -1,
        }
    }

    pub fn with_replaces_id(self, id: u32) -> (r: Self)
        ensures
            r == (NotificationPayload { replaces_id: id, ..self }),
    {
        let mut s = self;
        s.replaces_id = id;
        s
    }

    pub fn with_urgency(self, urgency: Urgency) -> (r: Self)
        ensures
            r == (NotificationPayload { urgency, ..self }),
    {
        let mut s = self;
        s.urgency = urgency;
        s
    }

    pub fn with_app_icon(self, icon: &str) -> (r: Self)
        ensures
            r.app_icon@ == icon@,
            r == (NotificationPayload { app_icon: r.app_icon, ..self }),
    {
        let mut s = self;
        s.app_icon = owned(icon);
        s
    }

    pub fn with_expire_timeout_ms(self, ms: i32) -> (r: Self)
        ensures
            r == (NotificationPayload { expire_timeout_ms: ms, ..self }),
    {
        let mut s = self;
        s.expire_timeout_ms = ms;
        s
    }
}

/// Stored server-side notification (payload + assigned FreeDesktop id).
#[derive(Debug, Clone, PartialEq, Eq)]
pub struct StoredNotification {
    pub id: u32,
    pub payload: NotificationPayload,
}

/// Capabilities advertised by this daemon.
pub open spec fn capabilities() -> Seq<Seq<char>> {
    seq!["body"@, "body-markup"@, "icon-static"@]
}

/// Capabilities advertised by this daemon: `body`, `body-markup`, `icon-static`.
pub fn default_capabilities() -> (r: Vec<&'static str>)
    ensures
        r@.len() == 3,
        forall|i: int| 0 <= i < 3 ==> (#[trigger] r@[i])@ == capabilities()[i],
{
    let mut v: Vec<&'static str> = Vec::new();
    v.push("body");
    v.push("body-markup");
    v.push("icon-static");
    v
}

/// Server identity returned by GetServerInformation.
#[derive(Debug, Clone, PartialEq, Eq)]
pub struct ServerInformation {
    pub name: String,
    pub vendor: String,
    pub version: String,
    pub spec_version: String,
}

/// Version of this package.
pub open spec fn package_version() -> Seq<char> {
    "0.1.0"@
}

impl Default for ServerInformation {
    fn default() -> (r: Self)
        ensures
            r.name@ == "SLOPOS-I"@,
            r.vendor@ == "SLOPOS-I"@,
            r.version@ == package_version(),
            r.spec_version@ == "1.2"@,
    {
        ServerInformation {
            name: owned("SLOPOS-I"),
            vendor: owned("SLOPOS-I"),
            version: owned("0.1.0"),
            spec_version: owned("1.2"),
        }
    }
}

fn clone_server_info(s: &ServerInformation) -> (r: ServerInformation)
    ensures
        r == *s,
{
    ServerInformation {
        name: s.name.clone(),
        vendor: s.vendor.clone(),
        version: s.version.clone(),
        spec_version: s.spec_version.clone(),
    }
}

/// Id after `id` in allocation order: the next `u32`, wrapping past the
/// maximum to 1 (0 is FreeDesktop's "no id").
pub open spec fn next_after(id: u32) -> u32 {
    if id == u32::MAX {
        1
    } else {
        (id + 1) as u32
    }
}

/// `id` advanced `n` times.
pub open spec fn advance(id: u32, n: nat) -> u32
    decreases n,
{
    if n == 0 {
        id
    } else {
        advance(next_after(id), (n - 1) as nat)
    }
}

/// First free, non-zero id met when trying `fuel` ids from `id` on.
pub open spec fn first_free(used: Set<u32>, id: u32, fuel: nat) -> Option<u32>
    decreases fuel,
{
    if fuel == 0 {
        None
    } else if id != 0 && !used.contains(id) {
        Some(id)
    } else {
        first_free(used, next_after(id), (fuel - 1) as nat)
    }
}

/// Model of the server state: next id to try, id → payload, identity.
pub type ServerModel = (u32, Map<u32, NotificationPayload>, ServerInformation);

/// FreeDesktop-compatible notification server state (no bus).
#[derive(Debug)]
pub struct NotificationServerState {
    next_id: u32,
    notifications: HashMap<u32, NotificationPayload>,
    server_info: ServerInformation,
}

impl View for NotificationServerState {
    type V = ServerModel;

    closed spec fn view(&self) -> ServerModel {
        (self.next_id, self.notifications@, self.server_info)
    }
}

impl Clone for NotificationServerState {
    fn clone(&self) -> (r: Self)
        ensures
            r@ == self@,
    {
        proof {
            use_type_invariant(self);
        }
        NotificationServerState {
            next_id: self.next_id,
            notifications: self.notifications.clone(),
            server_info: clone_server_info(&self.server_info),
        }
    }
}

impl Default for NotificationServerState {
    fn default() -> (r: Self)
        ensures
            r@.0 == 1,
            r@.1 == Map::<u32, NotificationPayload>::empty(),
            r@.2.name@ == "SLOPOS-I"@,
            r@.2.vendor@ == "SLOPOS-I"@,
            r@.2.version@ == package_version(),
            r@.2.spec_version@ == "1.2"@,
    {
        Self::new()
    }
}

/// Id that `Notify` with `payload` stores under: the replaced id when it is
/// non-zero and present, else a freshly allocated one.
pub open spec fn reuses_id(m: Map<u32, NotificationPayload>, payload: NotificationPayload) -> bool {
    payload.replaces_id != 0 && m.dom().contains(payload.replaces_id)
}

impl NotificationServerState {
    /// The id cursor never rests on 0, FreeDesktop's "no id".
    #[verifier::type_invariant]
    spec fn cursor_nonzero(self) -> bool {
        self.next_id != 0
    }

    /// Empty state; ids start at 1.
    pub fn new() -> (r: Self)
        ensures
            r@.0 == 1,
            r@.1 == Map::<u32, NotificationPayload>::empty(),
            r@.1.dom().finite(),
            r@.2.name@ == "SLOPOS-I"@,
            r@.2.vendor@ == "SLOPOS-I"@,
            r@.2.version@ == package_version(),
            r@.2.spec_version@ == "1.2"@,
    {
        NotificationServerState {
            next_id: 1,
            notifications: HashMap::new(),
            server_info: ServerInformation::default(),
        }
    }

    pub fn with_server_info(self, info: ServerInformation) -> (r: Self)
        ensures
            r@ == (self@.0, self@.1, info),
    {
        let mut s = self;
        proof {
            use_type_invariant(&s);
        }
        s.server_info = info;
        s
    }

    /// Allocate a new FreeDesktop notification id: the first free non-zero id
    /// from the cursor on, in allocation order; 1 when every id is taken.
    pub fn allocate_id(&mut self) -> (r: u32)
        ensures
            final(self)@.1 == old(self)@.1,
            final(self)@.2 == old(self)@.2,
            final(self)@.1.dom().finite(),
            final(self)@.0 != 0,
            r != 0,
            old(self)@.1.len() < u32::MAX ==> !old(self)@.1.dom().contains(r),
            match first_free(old(self)@.1.dom(), old(self)@.0, u32::MAX as nat) {
                Some(id) => r == id && final(self)@.0 == next_after(id),
                None => r == 1 && final(self)@.0 == advance(old(self)@.0, u32::MAX as nat),
            },
    {
        proof {
            use_type_invariant(&*self);
            if self.notifications@.len() < u32::MAX {
                law_allocation_finds_free_id(self.notifications@.dom(), self.next_id);
            }
        }
        let ghost used = self.notifications@.dom();
        let ghost start = self.next_id;
        let mut n: u32 = 0;
        while n < u32::MAX
            invariant
                used == self.notifications@.dom(),
                self.notifications@ == old(self).notifications@,
                self.server_info == old(self).server_info,
                start == old(self).next_id,
                n <= u32::MAX,
                self.next_id != 0,
                self.next_id == advance(start, n as nat),
                first_free(used, start, u32::MAX as nat) == first_free(
                    used,
                    self.next_id,
                    (u32::MAX - n) as nat,
                ),
            decreases u32::MAX - n,
        {
            let id = self.next_id;
            self.next_id = match self.next_id.checked_add(1) {
                Some(x) => if x != 0 {
                    x
                } else {
                    1
                },
                None => 1,
            };
            proof {
                assert(self.next_id == next_after(id));
                lemma_advance_step(start, n as nat);
            }
            n = n + 1;
            if id != 0 && !self.notifications.contains_key(&id) {
                return id;
            }
        }
        1
    }

    /// FreeDesktop `Notify`: store `payload` under its replaced id when that id
    /// is non-zero and present, else under a newly allocated id; return the id.
    pub fn notify(&mut self, payload: NotificationPayload) -> (r: u32)
        ensures
            r != 0,
            final(self)@.1 == old(self)@.1.insert(r, payload),
            final(self)@.1.dom().finite(),
            final(self)@.0 != 0,
            final(self)@.2 == old(self)@.2,
            !reuses_id(old(self)@.1, payload) && old(self)@.1.len() < u32::MAX
                ==> !old(self)@.1.dom().contains(r),
            reuses_id(old(self)@.1, payload) ==> r == payload.replaces_id && final(self)@.0
                == old(self)@.0,
            !reuses_id(old(self)@.1, payload) ==> match first_free(
                old(self)@.1.dom(),
                old(self)@.0,
                u32::MAX as nat,
            ) {
                Some(id) => r == id && final(self)@.0 == next_after(id),
                None => r == 1 && final(self)@.0 == advance(old(self)@.0, u32::MAX as nat),
            },
    {
        proof {
            use_type_invariant(&*self);
        }
        let id = if payload.replaces_id != 0 && self.notifications.contains_key(
            &payload.replaces_id,
        ) {
            payload.replaces_id
        } else {
            self.allocate_id()
        };
        let mut stored: HashMap<u32, NotificationPayload> = HashMap::new();
        std::mem::swap(&mut stored, &mut self.notifications);
        stored.insert(id, payload);
        self.notifications = stored;
        id
    }

    /// Construct the payload from fields, then [`Self::notify`].
    #[allow(clippy::too_many_arguments)]
    pub fn notify_fields(
        &mut self,
        app_name: &str,
        replaces_id: u32,
        app_icon: &str,
        summary: &str,
        body: &str,
        urgency: Urgency,
        expire_timeout_ms: i32,
    ) -> (r: u32)
        ensures
            r != 0,
            final(self)@.1.dom() == old(self)@.1.dom().insert(r),
            final(self)@.1.dom().finite(),
            !(replaces_id != 0 && old(self)@.1.dom().contains(replaces_id)) && old(self)@.1.len()
                < u32::MAX ==> !old(self)@.1.dom().contains(r),
            final(self)@.2 == old(self)@.2,
            ({
                let p = final(self)@.1[r];
                &&& p.app_name@ == app_name@
                &&& p.summary@ == summary@
                &&& p.body@ == body@
                &&& p.replaces_id == replaces_id
                &&& p.app_icon@ == app_icon@
                &&& p.urgency == urgency
                &&& p.expire_timeout_ms == expire_timeout_ms
            }),
            forall|k: u32| k != r && old(self)@.1.dom().contains(k) ==> #[trigger] final(self)@.1[k]
                == old(self)@.1[k],
            (replaces_id != 0 && old(self)@.1.dom().contains(replaces_id)) ==> r == replaces_id,
            !(replaces_id != 0 && old(self)@.1.dom().contains(replaces_id)) ==> match first_free(
                old(self)@.1.dom(),
                old(self)@.0,
                u32::MAX as nat,
            ) {
                Some(id) => r == id,
                None => r == 1,
            },
    {
        let p = NotificationPayload::new(app_name, summary, body).with_replaces_id(
            replaces_id,
        ).with_app_icon(app_icon).with_urgency(urgency).with_expire_timeout_ms(expire_timeout_ms);
        self.notify(p)
    }

    /// FreeDesktop `CloseNotification`: drop `id`; true if it was present.
    pub fn close(&mut self, id: u32) -> (r: bool)
        ensures
            r == old(self)@.1.dom().contains(id),
            final(self)@.1 == old(self)@.1.remove(id),
            final(self)@.1.dom().finite(),
            final(self)@.0 == old(self)@.0,
            final(self)@.2 == old(self)@.2,
    {
        proof {
            use_type_invariant(&*self);
        }
        let mut stored: HashMap<u32, NotificationPayload> = HashMap::new();
        std::mem::swap(&mut stored, &mut self.notifications);
        let was_present = stored.remove(&id).is_some();
        self.notifications = stored;
        was_present
    }

    pub fn get(&self, id: u32) -> (r: Option<&NotificationPayload>)
        ensures
            match r {
                Some(p) => self@.1.dom().contains(id) && *p == self@.1[id],
                None => !self@.1.dom().contains(id),
            },
    {
        self.notifications.get(&id)
    }

    /// Ids of the active notifications, ascending.
    pub fn active_ids(&self) -> (r: Vec<u32>)
        ensures
            forall|i: int, j: int| 0 <= i < j < r@.len() ==> r@[i] < r@[j],
            forall|k: u32| r@.contains(k) <==> self@.1.dom().contains(k),
    {
        let mut out: Vec<u32> = Vec::new();
        for k in it: self.notifications.keys()
            invariant
                it.seq().unref().to_set() == self@.1.dom(),
                forall|i: int, j: int| 0 <= i < j < out@.len() ==> out@[i] < out@[j],
                forall|x: u32|
                    out@.contains(x) <==> it.seq().unref().take(it.index()).contains(x),
                it.index() == it.seq().len() ==> forall|x: u32|
                    out@.contains(x) <==> self@.1.dom().contains(x),
        {
            insert_sorted(&mut out, *k);
            proof {
                lemma_keys_step(it.seq().unref(), it.index(), *k);
                lemma_keys_done(it.seq().unref(), it.index() + 1, out@, self@.1.dom());
            }
        }
        out
    }

    pub fn len(&self) -> (r: usize)
        ensures
            r == self@.1.len(),
    {
        self.notifications.len()
    }

    pub fn is_empty(&self) -> (r: bool)
        ensures
            r == (self@.1.len() == 0),
    {
        self.notifications.is_empty()
    }

    pub fn get_capabilities(&self) -> (r: Vec<&'static str>)
        ensures
            r@.len() == 3,
            forall|i: int| 0 <= i < 3 ==> (#[trigger] r@[i])@ == capabilities()[i],
    {
        default_capabilities()
    }

    pub fn get_server_information(&self) -> (r: ServerInformation)
        ensures
            r == self@.2,
    {
        clone_server_info(&self.server_info)
    }
}

proof fn lemma_keys_step(s: Seq<u32>, n: int, k: u32)
    requires
        0 <= n < s.len(),
        s[n] == k,
    ensures
        forall|x: u32| s.take(n + 1).contains(x) <==> (s.take(n).contains(x) || x == k),
{
    assert(s.take(n + 1) =~= s.take(n).push(k));
    assert forall|x: u32| s.take(n + 1).contains(x) <==> (s.take(n).contains(x) || x == k) by {
        let t = s.take(n);
        let t1 = s.take(n + 1);
        if t1.contains(x) {
            let j = choose|j: int| 0 <= j < n + 1 && #[trigger] t1[j] == x;
            if j < n {
                assert(t[j] == x);
            }
        }
        if t.contains(x) {
            let j = choose|j: int| 0 <= j < n && #[trigger] t[j] == x;
            assert(t1[j] == x);
        }
        if x == k {
            assert(t1[n] == x);
        }
    }
}

proof fn lemma_keys_done(s: Seq<u32>, n: int, out: Seq<u32>, dom: Set<u32>)
    requires
        s.to_set() == dom,
        0 <= n <= s.len(),
        forall|x: u32| out.contains(x) <==> s.take(n).contains(x),
    ensures
        n == s.len() ==> forall|x: u32| out.contains(x) <==> dom.contains(x),
{
    if n == s.len() {
        assert(s.take(n) =~= s);
    }
}

proof fn lemma_advance_step(id: u32, n: nat)
    ensures
        advance(id, n + 1) == next_after(advance(id, n)),
    decreases n,
{
    assert(advance(id, n + 1) == advance(next_after(id), n));
    if n > 0 {
        lemma_advance_step(next_after(id), (n - 1) as nat);
        assert(advance(id, n) == advance(next_after(id), (n - 1) as nat));
    }
}

proof fn lemma_advance_closed(id: u32, k: nat)
    requires
        id != 0,
    ensures
        advance(id, k) as int == (id as int - 1 + k) % (u32::MAX as int) + 1,
    decreases k,
{
    let m = u32::MAX as int;
    if k == 0 {
        vstd::arithmetic::div_mod::lemma_small_mod((id - 1) as nat, m as nat);
    } else {
        let j = (k - 1) as nat;
        lemma_advance_step(id, j);
        lemma_advance_closed(id, j);
        let a = advance(id, j);
        vstd::arithmetic::div_mod::lemma_add_mod_noop(id as int - 1 + j, 1, m);
        vstd::arithmetic::div_mod::lemma_small_mod(1, m as nat);
        vstd::arithmetic::div_mod::lemma_small_mod((a - 1) as nat, m as nat);
        if a == u32::MAX {
            vstd::arithmetic::div_mod::lemma_mod_self_0(m);
        } else {
            vstd::arithmetic::div_mod::lemma_small_mod(a as nat, m as nat);
        }
    }
}

proof fn lemma_first_free_none(used: Set<u32>, id: u32, fuel: nat, k: nat)
    requires
        first_free(used, id, fuel) is None,
        k < fuel,
    ensures
        advance(id, k) == 0 || used.contains(advance(id, k)),
    decreases fuel,
{
    if k > 0 {
        lemma_first_free_none(used, next_after(id), (fuel - 1) as nat, (k - 1) as nat);
    }
}

proof fn lemma_first_free_some(used: Set<u32>, id: u32, fuel: nat)
    ensures
        first_free(used, id, fuel) matches Some(f) ==> f != 0 && !used.contains(f),
    decreases fuel,
{
    if fuel > 0 {
        lemma_first_free_some(used, next_after(id), (fuel - 1) as nat);
    }
}

/// There are `u32::MAX` non-zero ids.
proof fn lemma_nonzero_ids_len()
    ensures
        Set::new(|x: u32| x != 0).finite(),
        Set::new(|x: u32| x != 0).len() == u32::MAX,
{
    let nz = Set::new(|x: u32| x != 0);
    let range = vstd::set_lib::set_int_range(1, u32::MAX as int + 1);
    let f = |i: int| i as u32;
    vstd::set_lib::lemma_int_range(1, u32::MAX as int + 1);
    assert forall|x: u32| nz.contains(x) implies #[trigger] range.map(f).contains(x) by {
        assert(range.contains(x as int) && f(x as int) == x);
    }
    assert(range.map(f) =~= nz);
    assert(vstd::relations::injective_on(f, range));
    vstd::set_lib::lemma_map_size(range, nz, f);
}

/// Allocation never fails while an id is free: starting from any non-zero
/// id, the `u32::MAX` ids tried cover every non-zero id once, so with fewer
/// notifications than non-zero ids the id allocated is non-zero and unused.
pub proof fn law_allocation_finds_free_id(used: Set<u32>, start: u32)
    requires
        start != 0,
        used.finite(),
        used.len() < u32::MAX,
    ensures
        first_free(used, start, u32::MAX as nat) matches Some(id) && id != 0 && !used.contains(id),
{
    let m = u32::MAX as int;
    lemma_first_free_some(used, start, u32::MAX as nat);
    if first_free(used, start, u32::MAX as nat) is None {
        let nz = Set::new(|x: u32| x != 0);
        assert forall|x: u32| nz.contains(x) implies used.contains(x) by {
            let k: nat = ((x as int - start as int) % m) as nat;
            lemma_advance_closed(start, k);
            vstd::arithmetic::div_mod::lemma_add_mod_noop(start as int - 1, x as int - start, m);
            vstd::arithmetic::div_mod::lemma_small_mod((start - 1) as nat, m as nat);
            vstd::arithmetic::div_mod::lemma_small_mod((x - 1) as nat, m as nat);
            lemma_first_free_none(used, start, u32::MAX as nat, k);
        }
        lemma_nonzero_ids_len();
        vstd::set_lib::lemma_len_subset(nz, used);
    }
}

/// Insert `x` into a strictly ascending vector unless already there.
fn insert_sorted(v: &mut Vec<u32>, x: u32)
    requires
        forall|i: int, j: int| 0 <= i < j < old(v)@.len() ==> old(v)@[i] < old(v)@[j],
    ensures
        forall|i: int, j: int| 0 <= i < j < final(v)@.len() ==> final(v)@[i] < final(v)@[j],
        forall|y: u32| final(v)@.contains(y) <==> (old(v)@.contains(y) || y == x),
{
    let mut i: usize = 0;
    while i < v.len() && v[i] < x
        invariant
            i <= v@.len(),
            forall|j: int| 0 <= j < i ==> v@[j] < x,
            v@ == old(v)@,
            forall|a: int, b: int| 0 <= a < b < v@.len() ==> v@[a] < v@[b],
        decreases v@.len() - i,
    {
        i = i + 1;
    }
    if i < v.len() && v[i] == x {
        return;
    }
    v.insert(i, x);
    proof {
        assert forall|y: u32| v@.contains(y) <==> (old(v)@.contains(y) || y == x) by {
            if v@.contains(y) {
                let k = choose|k: int| 0 <= k < v@.len() && v@[k] == y;
                if k < i {
                    assert(old(v)@[k] == y);
                } else if k > i {
                    assert(old(v)@[k - 1] == y);
                }
            }
            if old(v)@.contains(y) {
                let k = choose|k: int| 0 <= k < old(v)@.len() && old(v)@[k] == y;
                if k < i {
                    assert(v@[k] == y);
                } else {
                    assert(v@[k + 1] == y);
                }
            }
            if y == x {
                assert(v@[i as int] == x);
            }
        }
    }
}

/// Urgency from a FreeDesktop `urgency` hint byte (absent → Normal).
pub fn urgency_from_hint_bytes(raw: Option<u8>) -> (r: Urgency)
    ensures
        r == match raw {
            Some(b) => urgency_of_byte(b),
            None => Urgency::Normal,
        },
{
    match raw {
        Some(b) => Urgency::from_u8(b),
        None => Urgency::Normal,
    }
}

/// The `urgency` hint of a Notify call as D-Bus delivered it.
#[derive(Debug)]
pub enum UrgencyHint {
    /// A byte (`y`), as the specification asks.
    Byte(u8),
    /// A 32-bit integer (`i`), as some clients send it.
    Int(i32),
    /// A string, such as `critical`.
    Text(String),
    /// Any other value.
    Other,
}

/// Urgency of a Notify call from its `urgency` hint: a byte as the
/// specification says, an integer in `0..=255` likewise, a string by
/// name; absent or anything else means normal.
pub open spec fn urgency_of_hint(hint: Option<UrgencyHint>) -> Urgency {
    match hint {
        Some(UrgencyHint::Byte(b)) => urgency_of_byte(b),
        Some(UrgencyHint::Int(v)) => if 0 <= v <= 255 {
            urgency_of_byte(v as u8)
        } else {
            Urgency::Normal
        },
        Some(UrgencyHint::Text(t)) => match urgency_of_name(lower(trim(t@))) {
            Some(u) => u,
            None => Urgency::Normal,
        },
        _ => Urgency::Normal,
    }
}

/// Decide the urgency of a Notify call from its `urgency` hint.
pub fn urgency_from_hint(hint: Option<UrgencyHint>) -> (r: Urgency)
    ensures
        r == urgency_of_hint(hint),
{
    match hint {
        Some(UrgencyHint::Byte(b)) => Urgency::from_u8(b),
        Some(UrgencyHint::Int(v)) => if 0 <= v && v <= 255 {
            Urgency::from_u8(v as u8)
        } else {
            Urgency::Normal
        },
        Some(UrgencyHint::Text(t)) => match Urgency::parse(t.as_str()) {
            Some(u) => u,
            None => Urgency::Normal,
        },
        _ => Urgency::Normal,
    }
}

/// notify-send style arguments: urgency, summary, body, application name.
#[derive(Debug, Clone, PartialEq, Eq)]
pub struct NotifySendStyle {
    pub urgency: Urgency,
    pub summary: String,
    pub body: String,
    pub app_name: String,
}

/// Flags that take a value and are otherwise ignored.
pub open spec fn valued_flag(a: Seq<char>) -> bool {
    a == "-i"@ || a == "--icon"@ || a == "-c"@ || a == "--category"@ || a == "-t"@ || a
        == "--expire-time"@
}

/// Scan state after reading `args[i..]`: urgency, application name and the
/// positional arguments in order.
pub open spec fn scan_args(
    args: Seq<Seq<char>>,
    i: int,
    u: Urgency,
    app: Seq<char>,
    pos: Seq<Seq<char>>,
) -> (Urgency, Seq<char>, Seq<Seq<char>>)
    decreases args.len() - i,
{
    if i < 0 || i >= args.len() {
        (u, app, pos)
    } else {
        let a = args[i];
        let has_value = i + 1 < args.len();
        if a == "-u"@ || a == "--urgency"@ {
            if has_value {
                let nu = match urgency_of_name(lower(trim(args[i + 1]))) {
                    Some(x) => x,
                    None => u,
                };
                scan_args(args, i + 2, nu, app, pos)
            } else {
                scan_args(args, i + 1, u, app, pos)
            }
        } else if a == "-a"@ || a == "--app-name"@ {
            if has_value {
                scan_args(args, i + 2, u, args[i + 1], pos)
            } else {
                scan_args(args, i + 1, u, app, pos)
            }
        } else if starts_with(a, "-"@) {
            if valued_flag(a) && has_value {
                scan_args(args, i + 2, u, app, pos)
            } else {
                scan_args(args, i + 1, u, app, pos)
            }
        } else {
            scan_args(args, i + 1, u, app, pos.push(a))
        }
    }
}

/// Texts of a slice of borrowed strings.
pub open spec fn str_views(args: Seq<&str>) -> Seq<Seq<char>> {
    Seq::new(args.len(), |i: int| args[i]@)
}

/// Element `i` of `s`, or empty text past its end.
pub open spec fn nth_or_empty(s: Seq<Seq<char>>, i: int) -> Seq<char> {
    if 0 <= i < s.len() {
        s[i]
    } else {
        Seq::empty()
    }
}

impl NotifySendStyle {
    /// Parse notify-send style arguments: `-u`/`--urgency` with a value sets
    /// the urgency (an unknown value keeps it), `-a`/`--app-name` with a value
    /// sets the application name, other `-` flags are skipped (with their
    /// value for `-i`, `-c`, `-t` and their long forms), and the first two
    /// remaining arguments are summary and body.
    pub fn parse(args: &[&str]) -> (r: Self)
        ensures
            ({
                let s = scan_args(str_views(args@), 0, Urgency::Normal, Seq::empty(), Seq::empty());
                &&& r.urgency == s.0
                &&& r.app_name@ == s.1
                &&& r.summary@ == nth_or_empty(s.2, 0)
                &&& r.body@ == nth_or_empty(s.2, 1)
            }),
    {
        let ghost sv = str_views(args@);
        let mut urgency = Urgency::Normal;
        let mut app_name = String::new();
        let mut positional: Vec<&str> = Vec::new();
        let mut i: usize = 0;
        assert(str_views(positional@) =~= Seq::<Seq<char>>::empty());
        while i < args.len()
            invariant
                sv == str_views(args@),
                i <= args@.len(),
                scan_args(sv, 0, Urgency::Normal, Seq::empty(), Seq::empty()) == scan_args(
                    sv,
                    i as int,
                    urgency,
                    app_name@,
                    str_views(positional@),
                ),
            decreases args@.len() - i,
        {
            let arg = args[i];
            let a = str_chars(arg);
            let has_value = i + 1 < args.len();
            if eq_str(&a, "-u") || eq_str(&a, "--urgency") {
                if has_value {
                    if let Some(u) = Urgency::parse(args[i + 1]) {
                        urgency = u;
                    }
                    i = i + 2;
                } else {
                    i = i + 1;
                }
            } else if eq_str(&a, "-a") || eq_str(&a, "--app-name") {
                if has_value {
                    app_name = owned(args[i + 1]);
                    i = i + 2;
                } else {
                    i = i + 1;
                }
            } else if starts_with_str(&a, "-") {
                let valued = eq_str(&a, "-i") || eq_str(&a, "--icon") || eq_str(&a, "-c")
                    || eq_str(&a, "--category") || eq_str(&a, "-t") || eq_str(&a, "--expire-time");
                if valued && has_value {
                    i = i + 2;
                } else {
                    i = i + 1;
                }
            } else {
                let ghost before = str_views(positional@);
                positional.push(arg);
                assert(str_views(positional@) =~= before.push(arg@));
                i = i + 1;
            }
        }
        let summary = if positional.len() > 0 {
            owned(positional[0])
        } else {
            String::new()
        };
        let body = if positional.len() > 1 {
            owned(positional[1])
        } else {
            String::new()
        };
        NotifySendStyle { urgency, summary, body, app_name }
    }

    /// The payload this notify-send call describes.
    pub fn into_payload(self) -> (r: NotificationPayload)
        ensures
            r.app_name@ == self.app_name@,
            r.summary@ == self.summary@,
            r.body@ == self.body@,
            r.replaces_id == 0,
            r.urgency == self.urgency,
            r.app_icon@ == Seq::<char>::empty(),
            r.expire_timeout_ms == -1,
    {
        NotificationPayload::new(self.app_name.as_str(), self.summary.as_str(), self.body.as_str()).with_urgency(
            self.urgency,
        )
    }
}

/// An allocated id is never 0 and never one in use.
pub proof fn law_allocated_id_is_free(used: Set<u32>, id: u32, fuel: nat)
    ensures
        first_free(used, id, fuel) matches Some(x) ==> x != 0 && !used.contains(x),
    decreases fuel,
{
    if fuel > 0 && !(id != 0 && !used.contains(id)) {
        law_allocated_id_is_free(used, next_after(id), (fuel - 1) as nat);
    }
}

/// A new notification is what its id then gives back, and closing it
/// leaves the active notifications as they were.
pub proof fn law_notify_then_close_restores(
    m: Map<u32, NotificationPayload>,
    next_id: u32,
    payload: NotificationPayload,
)
    requires
        !reuses_id(m, payload),
        first_free(m.dom(), next_id, u32::MAX as nat) is Some,
    ensures
        ({
            let id = first_free(m.dom(), next_id, u32::MAX as nat)->Some_0;
            &&& m.insert(id, payload)[id] == payload
            &&& m.insert(id, payload).remove(id) == m
        }),
{
    let id = first_free(m.dom(), next_id, u32::MAX as nat)->Some_0;
    law_allocated_id_is_free(m.dom(), next_id, u32::MAX as nat);
    assert(m.insert(id, payload).remove(id) =~= m);
}

/// Which notification-center banner shows each FreeDesktop notification,
/// for a daemon that mirrors notifications into the center.
#[derive(Debug)]
pub struct BannerLinks<B> {
    links: HashMap<u32, B>,
}

impl<B> View for BannerLinks<B> {
    type V = Map<u32, B>;

    closed spec fn view(&self) -> Map<u32, B> {
        self.links@
    }
}

/// Application id a mirrored banner is posted under: the notification's
/// application name, or the FreeDesktop service name when it has none.
pub open spec fn banner_app_id_of(app_name: Seq<char>) -> Seq<char> {
    if app_name.len() == 0 {
        "org.freedesktop.Notifications"@
    } else {
        app_name
    }
}

/// Application id a mirrored banner is posted under.
pub fn banner_app_id(app_name: &str) -> (r: &str)
    ensures
        r@ == banner_app_id_of(app_name@),
{
    if app_name.unicode_len() == 0 {
        "org.freedesktop.Notifications"
    } else {
        app_name
    }
}

impl<B> BannerLinks<B> {
    /// No banner linked.
    pub fn new() -> (r: Self)
        ensures
            r@ == Map::<u32, B>::empty(),
    {
        BannerLinks { links: HashMap::new() }
    }

    /// Before notification `id` (stored by `Notify` with `replaces_id`) gets
    /// its new banner: unlink the banners of the replaced notification and of
    /// `id` itself, and return them, in that order, to be dismissed.
    pub fn take_replaced(&mut self, replaces_id: u32, id: u32) -> (r: Vec<B>)
        ensures
            final(self)@ == (if replaces_id != 0 {
                old(self)@.remove(replaces_id)
            } else {
                old(self)@
            }).remove(id),
            r@ == (if replaces_id != 0 && old(self)@.contains_key(replaces_id) {
                seq![old(self)@[replaces_id]]
            } else {
                Seq::empty()
            }) + (if id != replaces_id || replaces_id == 0 {
                if old(self)@.contains_key(id) {
                    seq![old(self)@[id]]
                } else {
                    Seq::empty()
                }
            } else {
                Seq::empty()
            }),
    {
        let mut out: Vec<B> = Vec::new();
        if replaces_id != 0 {
            match self.links.remove(&replaces_id) {
                Some(b) => out.push(b),
                None => {},
            }
        }
        let ghost mid = out@;
        match self.links.remove(&id) {
            Some(b) => out.push(b),
            None => {},
        }
        proof {
            if replaces_id != 0 && id == replaces_id {
                assert(!old(self)@.remove(replaces_id).contains_key(id));
            }
        }
        assert(out@ =~= (if replaces_id != 0 && old(self)@.contains_key(replaces_id) {
            seq![old(self)@[replaces_id]]
        } else {
            Seq::empty()
        }) + (if id != replaces_id || replaces_id == 0 {
            if old(self)@.contains_key(id) {
                seq![old(self)@[id]]
            } else {
                Seq::empty()
            }
        } else {
            Seq::empty()
        }));
        out
    }

    /// Records that `banner` shows notification `id`.
    pub fn link(&mut self, id: u32, banner: B)
        ensures
            final(self)@ == old(self)@.insert(id, banner),
    {
        self.links.insert(id, banner);
    }

    /// `CloseNotification`: unlink the banner of `id`, to be dismissed.
    pub fn unlink(&mut self, id: u32) -> (r: Option<B>)
        ensures
            final(self)@ == old(self)@.remove(id),
            r == (if old(self)@.contains_key(id) {
                Some(old(self)@[id])
            } else {
                None
            }),
    {
        self.links.remove(&id)
    }
}

/// Banner links after a `Notify` that stored `id` (replacing `replaces_id`)
/// and posted `banner`: the replaced and earlier banners unlinked, the new
/// one linked.
pub open spec fn relinked<B>(links: Map<u32, B>, replaces_id: u32, id: u32, banner: B) -> Map<u32, B> {
    (if replaces_id != 0 {
        links.remove(replaces_id)
    } else {
        links
    }).remove(id).insert(id, banner)
}

/// A replaced notification keeps no banner of its own: after a `Notify`
/// its id shows exactly the new banner, the id it replaced shows none, and
/// every other notification keeps its banner.
pub proof fn law_replacement_leaves_one_banner<B>(
    links: Map<u32, B>,
    replaces_id: u32,
    id: u32,
    banner: B,
)
    ensures
        relinked(links, replaces_id, id, banner).contains_key(id),
        relinked(links, replaces_id, id, banner)[id] == banner,
        replaces_id != 0 && replaces_id != id ==> !relinked(
            links,
            replaces_id,
            id,
            banner,
        ).contains_key(replaces_id),
        forall|k: u32|
            k != id && k != replaces_id ==> (#[trigger] relinked(links, replaces_id, id, banner).contains_key(k)
                == links.contains_key(k) && (links.contains_key(k) ==> relinked(
                links,
                replaces_id,
                id,
                banner,
            )[k] == links[k])),
{
}

} // verus!
