//! Foreign-toplevel list events applied to a [`ForeignToplevelRegistry`].
//!
//! The compositor's list protocol is reduced to three events; applying them
//! is pure and verified here. Binding the protocol and collecting the events
//! is the application's job.
use vstd::prelude::*;

use std::collections::HashMap;

use crate::foreign_toplevel::{
    handle_index, lemma_handle_index, with_rules, ForeignToplevelEntry, ForeignToplevelRegistry,
};

verus! {

broadcast use vstd::std_specs::hash::group_hash_axioms;

/// Protocol event applied to the registry (mirrors compositor list events).
#[derive(Clone, Debug, PartialEq, Eq)]
pub enum ForeignToplevelListEvent {
    /// New or updated handle.
    Toplevel { handle_id: String, title: String, app_id: String },
    /// Handle closed.
    Closed { handle_id: String },
    /// List finished its initial dump.
    Finished,
}

/// Registry entries after one event: a known handle gets the new title and
/// application id, an unknown one is appended (no pid, rules applied); a
/// closed handle is dropped; `Finished` changes nothing.
pub open spec fn after_list_event(
    s: Seq<ForeignToplevelEntry>,
    ev: ForeignToplevelListEvent,
) -> Seq<ForeignToplevelEntry> {
    match ev {
        ForeignToplevelListEvent::Toplevel { handle_id, title, app_id } => {
            let i = handle_index(s, handle_id@);
            if i >= 0 {
                s.update(i, with_rules(ForeignToplevelEntry { title, app_id, ..s[i] }))
            } else {
                s.push(
                    with_rules(
                        ForeignToplevelEntry {
                            handle_id,
                            title,
                            app_id,
                            pid: None,
                            workspace: None,
                            skip_taskbar: false,
                        },
                    ),
                )
            }
        },
        ForeignToplevelListEvent::Closed { handle_id } => {
            let i = handle_index(s, handle_id@);
            if i >= 0 {
                s.remove(i)
            } else {
                s
            }
        },
        ForeignToplevelListEvent::Finished => s,
    }
}

/// Registry entries after a batch of events, applied in order.
pub open spec fn after_list_events(
    s: Seq<ForeignToplevelEntry>,
    evs: Seq<ForeignToplevelListEvent>,
) -> Seq<ForeignToplevelEntry>
    decreases evs.len(),
{
    if evs.len() == 0 {
        s
    } else {
        after_list_event(after_list_events(s, evs.drop_last()), evs.last())
    }
}

/// Apply one protocol event to the registry.
pub fn apply_foreign_toplevel_list_event(
    registry: &mut ForeignToplevelRegistry,
    event: ForeignToplevelListEvent,
)
    ensures
        final(registry)@ == after_list_event(old(registry)@, event),
{
    match event {
        ForeignToplevelListEvent::Toplevel { handle_id, title, app_id } => {
            if registry.get(handle_id.as_str()).is_some() {
                registry.update(handle_id.as_str(), Some(title), Some(app_id), None);
            } else {
                let entry = ForeignToplevelEntry {
                    handle_id,
                    title,
                    app_id,
                    pid: None,
                    workspace: None,
                    skip_taskbar: false,
                };
                registry.add(entry);
            }
        },
        ForeignToplevelListEvent::Closed { handle_id } => {
            registry.close(handle_id.as_str());
        },
        ForeignToplevelListEvent::Finished => {},
    }
}

fn clone_event(e: &ForeignToplevelListEvent) -> (r: ForeignToplevelListEvent)
    ensures
        r == *e,
{
    match e {
        ForeignToplevelListEvent::Toplevel { handle_id, title, app_id } => {
            ForeignToplevelListEvent::Toplevel {
                handle_id: handle_id.clone(),
                title: title.clone(),
                app_id: app_id.clone(),
            }
        },
        ForeignToplevelListEvent::Closed { handle_id } => {
            ForeignToplevelListEvent::Closed { handle_id: handle_id.clone() }
        },
        ForeignToplevelListEvent::Finished => ForeignToplevelListEvent::Finished,
    }
}

/// Apply a batch of events (as received during a roundtrip), in order.
pub fn apply_foreign_toplevel_list_events(
    registry: &mut ForeignToplevelRegistry,
    events: &[ForeignToplevelListEvent],
)
    ensures
        final(registry)@ == after_list_events(old(registry)@, events@),
{
    let ghost start = registry@;
    let mut i: usize = 0;
    assert(events@.take(0) =~= Seq::<ForeignToplevelListEvent>::empty());
    while i < events.len()
        invariant
            i <= events@.len(),
            registry@ == after_list_events(start, events@.take(i as int)),
        decreases events@.len() - i,
    {
        assert(events@.take(i + 1).drop_last() =~= events@.take(i as int));
        assert(events@.take(i + 1).last() == events@[i as int]);
        apply_foreign_toplevel_list_event(registry, clone_event(&events[i]));
        i = i + 1;
    }
    assert(events@.take(events@.len() as int) =~= events@);
}

/// A handle announced and then closed leaves a registry that did not know it
/// as it was.
pub proof fn law_announce_then_close_restores(
    s: Seq<ForeignToplevelEntry>,
    handle_id: String,
    title: String,
    app_id: String,
    closed: String,
)
    requires
        handle_index(s, handle_id@) < 0,
        closed@ == handle_id@,
    ensures
        after_list_event(
            after_list_event(
                s,
                ForeignToplevelListEvent::Toplevel { handle_id, title, app_id },
            ),
            ForeignToplevelListEvent::Closed { handle_id: closed },
        ) == s,
{
    let t = after_list_event(s, ForeignToplevelListEvent::Toplevel { handle_id, title, app_id });
    lemma_handle_index(s, handle_id@);
    lemma_handle_index(t, handle_id@);
    assert(t.len() == s.len() + 1);
    assert(t[s.len() as int].handle_id@ == handle_id@);
    assert(forall|j: int| 0 <= j < s.len() ==> t[j] == s[j]);
    assert(handle_index(t, handle_id@) == s.len());
    assert(t.remove(s.len() as int) =~= s);
}

/// `Finished` never changes the registry, and a close of an unknown handle
/// changes nothing either.
pub proof fn law_finished_and_unknown_close_are_no_ops(
    s: Seq<ForeignToplevelEntry>,
    handle_id: String,
)
    requires
        handle_index(s, handle_id@) < 0,
    ensures
        after_list_event(s, ForeignToplevelListEvent::Finished) == s,
        after_list_event(s, ForeignToplevelListEvent::Closed { handle_id }) == s,
{
}

/// What a toplevel handle reports before it is complete.
#[derive(Debug)]
pub enum HandleEvent {
    Title(String),
    AppId(String),
    Identifier(String),
    Done,
    Closed,
}

/// The identifier a handle has until it reports one: `ftl-{id}`.
pub open spec fn fallback_handle_id(id: u32) -> Seq<char> {
    "ftl-"@ + crate::text::dec(id as nat)
}

/// Identifier, title and application id of a pending handle, as text.
pub open spec fn pending_fields(h: (String, String, String)) -> (Seq<char>, Seq<char>, Seq<char>) {
    (h.0@, h.1@, h.2@)
}

/// Handles announced by the list, keyed by protocol id, while their
/// identifier, title and application id arrive.
#[derive(Debug)]
pub struct PendingToplevels {
    handles: HashMap<u32, (String, String, String)>,
}

impl View for PendingToplevels {
    type V = Map<u32, (Seq<char>, Seq<char>, Seq<char>)>;

    closed spec fn view(&self) -> Self::V {
        self.handles@.map_values(|h: (String, String, String)| pending_fields(h))
    }
}

/// The list event a handle event yields, given what was pending: a complete
/// handle on `Done`, a close on `Closed` (under the fallback identifier when
/// the handle was not pending), nothing otherwise.
pub open spec fn handle_event_output(
    pending: Map<u32, (Seq<char>, Seq<char>, Seq<char>)>,
    id: u32,
    event: HandleEvent,
    out: Option<ForeignToplevelListEvent>,
) -> bool {
    match event {
        HandleEvent::Done => if pending.contains_key(id) {
            out matches Some(ForeignToplevelListEvent::Toplevel { handle_id, title, app_id }) && (
            handle_id@, title@, app_id@) == pending[id]
        } else {
            out is None
        },
        HandleEvent::Closed => out matches Some(ForeignToplevelListEvent::Closed { handle_id })
            && handle_id@ == (if pending.contains_key(id) {
            pending[id].0
        } else {
            fallback_handle_id(id)
        }),
        _ => out is None,
    }
}

/// The pending map after a handle event: the reported field replaced when
/// the handle is pending, the handle dropped when it closes.
pub open spec fn pending_after(
    pending: Map<u32, (Seq<char>, Seq<char>, Seq<char>)>,
    id: u32,
    event: HandleEvent,
) -> Map<u32, (Seq<char>, Seq<char>, Seq<char>)> {
    if !pending.contains_key(id) {
        pending
    } else {
        let f = pending[id];
        match event {
            HandleEvent::Title(t) => pending.insert(id, (f.0, t@, f.2)),
            HandleEvent::AppId(a) => pending.insert(id, (f.0, f.1, a@)),
            HandleEvent::Identifier(h) => pending.insert(id, (h@, f.1, f.2)),
            HandleEvent::Done => pending,
            HandleEvent::Closed => pending.remove(id),
        }
    }
}

fn fallback_handle_id_exec(id: u32) -> (r: String)
    ensures
        r@ == fallback_handle_id(id),
{
    let mut v = crate::text::str_chars("ftl-");
    crate::text::push_decimal(&mut v, id as u64);
    crate::text::chars_to_string(&v)
}

impl PendingToplevels {
    /// No handle pending.
    pub fn new() -> (r: Self)
        ensures
            r@ == Map::<u32, (Seq<char>, Seq<char>, Seq<char>)>::empty(),
    {
        let r = PendingToplevels { handles: HashMap::new() };
        assert(r@ =~= Map::<u32, (Seq<char>, Seq<char>, Seq<char>)>::empty());
        r
    }

    /// Stores `h` under `id`: the map afterwards holds its fields there.
    fn store(&mut self, id: u32, h: (String, String, String))
        ensures
            final(self)@ == old(self)@.insert(id, pending_fields(h)),
    {
        let ghost before = self.handles@;
        self.handles.insert(id, h);
        assert(self@ =~= old(self)@.insert(id, pending_fields(h))) by {
            assert(self.handles@ == before.insert(id, h));
        }
    }

    /// A new handle (the list's `toplevel` event): pending under the
    /// fallback identifier with no title or application id yet, replacing
    /// whatever was pending under the same protocol id.
    pub fn announce(&mut self, protocol_id: u32)
        ensures
            final(self)@ == old(self)@.insert(
                protocol_id,
                (fallback_handle_id(protocol_id), Seq::empty(), Seq::empty()),
            ),
    {
        let h = (fallback_handle_id_exec(protocol_id), String::new(), String::new());
        assert(pending_fields(h) =~= (
            fallback_handle_id(protocol_id),
            Seq::<char>::empty(),
            Seq::<char>::empty(),
        ));
        self.store(protocol_id, h);
    }

    /// Record what a handle reported, and give the list event it completes:
    /// a title, application id or identifier replaces that field of a
    /// pending handle; `Done` yields the handle as a list entry; `Closed`
    /// yields a close and drops the handle.
    pub fn handle_event(&mut self, protocol_id: u32, event: HandleEvent) -> (r: Option<
        ForeignToplevelListEvent,
    >)
        ensures
            handle_event_output(old(self)@, protocol_id, event, r),
            final(self)@ == pending_after(old(self)@, protocol_id, event),
    {
        let (hid, title, app_id) = match self.handles.get(&protocol_id) {
            None => {
                assert(!old(self)@.contains_key(protocol_id));
                return match event {
                    HandleEvent::Closed => Some(
                        ForeignToplevelListEvent::Closed {
                            handle_id: fallback_handle_id_exec(protocol_id),
                        },
                    ),
                    _ => None,
                };
            },
            Some(h) => (h.0.clone(), h.1.clone(), h.2.clone()),
        };
        assert(old(self)@.contains_key(protocol_id));
        assert(old(self)@[protocol_id] == (hid@, title@, app_id@));
        match event {
            HandleEvent::Title(t) => {
                self.store(protocol_id, (hid, t, app_id));
                None
            },
            HandleEvent::AppId(a) => {
                self.store(protocol_id, (hid, title, a));
                None
            },
            HandleEvent::Identifier(x) => {
                self.store(protocol_id, (x, title, app_id));
                None
            },
            HandleEvent::Done => Some(ForeignToplevelListEvent::Toplevel { handle_id: hid, title, app_id }),
            HandleEvent::Closed => {
                let ghost before = self.handles@;
                self.handles.remove(&protocol_id);
                assert(self@ =~= old(self)@.remove(protocol_id)) by {
                    assert(self.handles@ == before.remove(protocol_id));
                }
                Some(ForeignToplevelListEvent::Closed { handle_id: hid })
            },
        }
    }
}


/// A handle that closes right after it was announced leaves the pending
/// handles as they were before, when its id was not pending then.
pub proof fn law_announce_then_close_forgets(
    pending: Map<u32, (Seq<char>, Seq<char>, Seq<char>)>,
    protocol_id: u32,
)
    requires
        !pending.contains_key(protocol_id),
    ensures
        pending_after(
            pending.insert(protocol_id, (fallback_handle_id(protocol_id), Seq::empty(), Seq::empty())),
            protocol_id,
            HandleEvent::Closed,
        ) == pending,
{
    assert(pending.insert(
        protocol_id,
        (fallback_handle_id(protocol_id), Seq::empty(), Seq::empty()),
    ).remove(protocol_id) =~= pending);
}

} // verus!
