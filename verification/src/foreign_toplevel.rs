//! Foreign-toplevel registry for the task list and Force Quit.
//!
//! Mirrors compositor foreign-toplevel handles as session state so Force Quit
//! can list and remove external toplevels, with default window rules applied.
use vstd::prelude::*;

use crate::text::{
    chars_eq, chars_to_string, dec, ends_with, ends_with_str, find_first, owned, parse_u32,
    parse_u32_chars, push_chars, push_decimal, push_str_chars, rfind, rfind_str, slice_chars,
    sort_texts, starts_with, starts_with_str, str_chars, string_views, trim, trim_chars,
    insert_string,
};
use crate::window_rules::{default_rule_actions, evaluate_default_rules, WindowRuleActions};

verus! {

/// One foreign toplevel handle known to the shell session.
#[derive(Clone, Debug, PartialEq, Eq)]
pub struct ForeignToplevelEntry {
    pub handle_id: String,
    pub title: String,
    pub app_id: String,
    pub pid: Option<u32>,
    /// Workspace from window rules (`None` = default / active).
    pub workspace: Option<u8>,
    /// Skip Force Quit / task list when rules say so.
    pub skip_taskbar: bool,
}

/// Entry after the default session rules: a rule's workspace replaces the
/// entry's, and a rule can only turn `skip_taskbar` on.
pub open spec fn with_rules(e: ForeignToplevelEntry) -> ForeignToplevelEntry {
    match default_rule_actions(e.app_id@, e.title@) {
        Some(a) => ForeignToplevelEntry {
            workspace: if a.workspace is Some {
                a.workspace
            } else {
                e.workspace
            },
            skip_taskbar: e.skip_taskbar || a.skip_taskbar,
            ..e
        },
        None => e,
    }
}

fn clone_entry(e: &ForeignToplevelEntry) -> (r: ForeignToplevelEntry)
    ensures
        r == *e,
{
    ForeignToplevelEntry {
        handle_id: e.handle_id.clone(),
        title: e.title.clone(),
        app_id: e.app_id.clone(),
        pid: e.pid,
        workspace: e.workspace,
        skip_taskbar: e.skip_taskbar,
    }
}

impl ForeignToplevelEntry {
    /// New entry (no workspace, shown in the task list) with the default
    /// session rules applied.
    pub fn new(handle_id: &str, title: &str, app_id: &str, pid: Option<u32>) -> (r: Self)
        ensures
            r == with_rules(
                ForeignToplevelEntry {
                    workspace: None,
                    skip_taskbar: false,
                    pid,
                    ..r
                },
            ),
            r.handle_id@ == handle_id@,
            r.title@ == title@,
            r.app_id@ == app_id@,
    {
        let mut e = ForeignToplevelEntry {
            handle_id: owned(handle_id),
            title: owned(title),
            app_id: owned(app_id),
            pid,
            workspace: None,
            skip_taskbar: false,
        };
        e.apply_default_rules();
        e
    }

    /// Re-evaluate default session window rules against title/app_id.
    pub fn apply_default_rules(&mut self)
        ensures
            *final(self) == with_rules(*old(self)),
    {
        let a = str_chars(self.app_id.as_str());
        let t = str_chars(self.title.as_str());
        if let Some(actions) = evaluate_default_rules(&a, &t) {
            apply_rule_actions(self, &actions);
        }
    }
}

fn apply_rule_actions(entry: &mut ForeignToplevelEntry, actions: &WindowRuleActions)
    ensures
        *final(entry) == (ForeignToplevelEntry {
            workspace: if actions.workspace is Some {
                actions.workspace
            } else {
                old(entry).workspace
            },
            skip_taskbar: old(entry).skip_taskbar || actions.skip_taskbar,
            ..*old(entry)
        }),
{
    if let Some(ws) = actions.workspace {
        entry.workspace = Some(ws);
    }
    if actions.skip_taskbar {
        entry.skip_taskbar = true;
    }
}

/// Parsed `toplevel:` Force Quit list entry.
#[derive(Clone, Debug, PartialEq, Eq)]
pub struct ToplevelForceQuit {
    pub title: String,
    pub app_id: Option<String>,
    pub pid: Option<u32>,
}

/// Index of the first entry with this handle id, or `-1`.
pub open spec fn handle_index(s: Seq<ForeignToplevelEntry>, h: Seq<char>) -> int
    decreases s.len(),
{
    if s.len() == 0 {
        -1
    } else if s[0].handle_id@ == h {
        0
    } else {
        let r = handle_index(s.drop_first(), h);
        if r < 0 {
            -1
        } else {
            r + 1
        }
    }
}

pub proof fn lemma_handle_index(s: Seq<ForeignToplevelEntry>, h: Seq<char>)
    ensures
        -1 <= handle_index(s, h) < s.len(),
        handle_index(s, h) >= 0 ==> s[handle_index(s, h)].handle_id@ == h,
        handle_index(s, h) >= 0 ==> forall|j: int|
            0 <= j < handle_index(s, h) ==> s[j].handle_id@ != h,
        handle_index(s, h) < 0 ==> forall|j: int| 0 <= j < s.len() ==> s[j].handle_id@ != h,
    decreases s.len(),
{
    if s.len() > 0 && s[0].handle_id@ != h {
        lemma_handle_index(s.drop_first(), h);
        assert forall|j: int| 0 < j < s.len() implies s[j] == s.drop_first()[j - 1] by {}
    }
}

/// `e` is what Force Quit target `t` designates: by pid when the target has
/// one, else by title (and application id when given).
pub open spec fn designates(e: ForeignToplevelEntry, t: ToplevelForceQuit) -> bool {
    match t.pid {
        Some(p) => e.pid == Some(p),
        None => e.title@ == t.title@ && match t.app_id {
            Some(a) => e.app_id@ == a@,
            None => true,
        },
    }
}

/// Index of the first entry target `t` designates, or `-1`.
pub open spec fn match_index(s: Seq<ForeignToplevelEntry>, t: ToplevelForceQuit) -> int
    decreases s.len(),
{
    if s.len() == 0 {
        -1
    } else if designates(s[0], t) {
        0
    } else {
        let r = match_index(s.drop_first(), t);
        if r < 0 {
            -1
        } else {
            r + 1
        }
    }
}

pub proof fn lemma_match_index(s: Seq<ForeignToplevelEntry>, t: ToplevelForceQuit)
    ensures
        -1 <= match_index(s, t) < s.len(),
        match_index(s, t) >= 0 ==> designates(s[match_index(s, t)], t),
        match_index(s, t) >= 0 ==> forall|j: int| 0 <= j < match_index(s, t) ==> !designates(s[j], t),
        match_index(s, t) < 0 ==> forall|j: int| 0 <= j < s.len() ==> !designates(s[j], t),
    decreases s.len(),
{
    if s.len() > 0 && !designates(s[0], t) {
        lemma_match_index(s.drop_first(), t);
        assert forall|j: int| 0 < j < s.len() implies s[j] == s.drop_first()[j - 1] by {}
    }
}

/// Force Quit label of an entry: `toplevel: {title} (pid {n})` with a pid,
/// `toplevel: {title} [{app_id}]` without.
pub open spec fn force_quit_label(e: ForeignToplevelEntry) -> Seq<char> {
    match e.pid {
        Some(p) => "toplevel: "@ + e.title@ + " (pid "@ + dec(p as nat) + ")"@,
        None => "toplevel: "@ + e.title@ + " ["@ + e.app_id@ + "]"@,
    }
}

/// Labels of the entries shown in Force Quit, in registry order.
pub open spec fn shown_labels(s: Seq<ForeignToplevelEntry>) -> Seq<Seq<char>>
    decreases s.len(),
{
    if s.len() == 0 {
        Seq::empty()
    } else if s.last().skip_taskbar {
        shown_labels(s.drop_last())
    } else {
        shown_labels(s.drop_last()).push(force_quit_label(s.last()))
    }
}

/// No handle id occurs twice.
pub open spec fn handles_distinct(s: Seq<ForeignToplevelEntry>) -> bool {
    forall|i: int, j: int| 0 <= i < j < s.len() ==> s[i].handle_id@ != s[j].handle_id@
}

/// Registry of foreign toplevels (compositor clients / external apps), one
/// entry per handle id.
#[derive(Debug)]
pub struct ForeignToplevelRegistry {
    entries: Vec<ForeignToplevelEntry>,
}

impl ForeignToplevelRegistry {
    #[verifier::type_invariant]
    closed spec fn keyed_by_handle(self) -> bool {
        handles_distinct(self.entries@)
    }
}

impl Clone for ForeignToplevelRegistry {
    fn clone(&self) -> (r: Self)
        ensures
            r@ == self@,
    {
        proof {
            use_type_invariant(self);
        }
        let mut v: Vec<ForeignToplevelEntry> = Vec::new();
        let mut i: usize = 0;
        while i < self.entries.len()
            invariant
                i <= self.entries@.len(),
                v@ == self.entries@.take(i as int),
            decreases self.entries@.len() - i,
        {
            v.push(clone_entry(&self.entries[i]));
            i = i + 1;
            assert(v@ =~= self.entries@.take(i as int));
        }
        assert(v@ =~= self.entries@);
        ForeignToplevelRegistry { entries: v }
    }
}

impl View for ForeignToplevelRegistry {
    /// Entries in insertion order.
    type V = Seq<ForeignToplevelEntry>;

    closed spec fn view(&self) -> Seq<ForeignToplevelEntry> {
        self.entries@
    }
}

impl Default for ForeignToplevelRegistry {
    fn default() -> (r: Self)
        ensures
            r@ == Seq::<ForeignToplevelEntry>::empty(),
    {
        ForeignToplevelRegistry { entries: Vec::new() }
    }
}

fn str_eq_strings(a: &String, b: &String) -> (r: bool)
    ensures
        r == (a@ == b@),
{
    let av = str_chars(a.as_str());
    let bv = str_chars(b.as_str());
    chars_eq(&av, &bv)
}

fn designates_exec(e: &ForeignToplevelEntry, t: &ToplevelForceQuit) -> (r: bool)
    ensures
        r == designates(*e, *t),
{
    match t.pid {
        Some(p) => match e.pid {
            Some(q) => q == p,
            None => false,
        },
        None => str_eq_strings(&e.title, &t.title) && match &t.app_id {
            Some(a) => str_eq_strings(&e.app_id, a),
            None => true,
        },
    }
}

impl ForeignToplevelRegistry {
    pub fn new() -> (r: Self)
        ensures
            r@ == Seq::<ForeignToplevelEntry>::empty(),
    {
        ForeignToplevelRegistry { entries: Vec::new() }
    }

    pub fn len(&self) -> (r: usize)
        ensures
            r == self@.len(),
    {
        self.entries.len()
    }

    pub fn is_empty(&self) -> (r: bool)
        ensures
            r == (self@.len() == 0),
    {
        self.entries.len() == 0
    }

    /// The entries, in insertion order; no handle id occurs twice.
    pub fn entries(&self) -> (r: &[ForeignToplevelEntry])
        ensures
            r@ == self@,
            handles_distinct(r@),
    {
        proof {
            use_type_invariant(self);
        }
        self.entries.as_slice()
    }

    fn take_entries(&mut self) -> (r: Vec<ForeignToplevelEntry>)
        ensures
            r@ == old(self)@,
            final(self)@ == Seq::<ForeignToplevelEntry>::empty(),
    {
        let mut v: Vec<ForeignToplevelEntry> = Vec::new();
        std::mem::swap(&mut v, &mut self.entries);
        v
    }

    fn find_handle(&self, handle_id: &[char]) -> (r: Option<usize>)
        ensures
            match r {
                Some(i) => i as int == handle_index(self@, handle_id@) && i < self@.len(),
                None => handle_index(self@, handle_id@) == -1,
            },
    {
        proof {
            lemma_handle_index(self@, handle_id@);
        }
        let mut i: usize = 0;
        while i < self.entries.len()
            invariant
                i <= self.entries@.len(),
                forall|j: int| 0 <= j < i ==> self.entries@[j].handle_id@ != handle_id@,
                -1 <= handle_index(self.entries@, handle_id@) < self.entries@.len(),
                handle_index(self.entries@, handle_id@) >= 0 ==> self.entries@[handle_index(
                    self.entries@,
                    handle_id@,
                )].handle_id@ == handle_id@,
                handle_index(self.entries@, handle_id@) >= 0 ==> forall|j: int|
                    0 <= j < handle_index(self.entries@, handle_id@)
                        ==> self.entries@[j].handle_id@ != handle_id@,
                handle_index(self.entries@, handle_id@) < 0 ==> forall|j: int|
                    0 <= j < self.entries@.len() ==> self.entries@[j].handle_id@ != handle_id@,
            decreases self.entries@.len() - i,
        {
            let hv = str_chars(self.entries[i].handle_id.as_str());
            if chars_eq(&hv, handle_id) {
                proof {
                    let k = handle_index(self.entries@, handle_id@);
                    if k < 0 || k > i {
                        assert(self.entries@[i as int].handle_id@ != handle_id@);
                    } else if k < i {
                        assert(self.entries@[k].handle_id@ != handle_id@);
                    }
                }
                return Some(i);
            }
            i = i + 1;
        }
        None
    }

    /// Lookup by handle id.
    pub fn get(&self, handle_id: &str) -> (r: Option<&ForeignToplevelEntry>)
        ensures
            match r {
                Some(e) => handle_index(self@, handle_id@) >= 0 && *e == self@[handle_index(
                    self@,
                    handle_id@,
                )],
                None => handle_index(self@, handle_id@) < 0,
            },
    {
        let h = str_chars(handle_id);
        match self.find_handle(&h) {
            Some(i) => Some(&self.entries[i]),
            None => None,
        }
    }

    /// Insert or replace by `handle_id`, with window rules applied.
    pub fn add(&mut self, entry: ForeignToplevelEntry)
        ensures
            handle_index(old(self)@, entry.handle_id@) >= 0 ==> final(self)@ == old(self)@.update(
                handle_index(old(self)@, entry.handle_id@),
                with_rules(entry),
            ),
            handle_index(old(self)@, entry.handle_id@) < 0 ==> final(self)@ == old(self)@.push(
                with_rules(entry),
            ),
    {
        proof {
            use_type_invariant(&*self);
        }
        let mut entry = entry;
        entry.apply_default_rules();
        let h = str_chars(entry.handle_id.as_str());
        proof {
            lemma_handle_index(self@, h@);
        }
        match self.find_handle(&h) {
            Some(i) => {
                assert(handles_distinct(self.entries@.update(i as int, entry)));
                let mut v = self.take_entries();
                v.set(i, entry);
                self.entries = v;
            },
            None => {
                assert(handles_distinct(self.entries@.push(entry)));
                let mut v = self.take_entries();
                v.push(entry);
                self.entries = v;
            },
        }
    }

    /// Update title/app_id/pid of an existing handle (rules re-applied);
    /// false, with nothing changed, when the handle is unknown.
    pub fn update(
        &mut self,
        handle_id: &str,
        title: Option<String>,
        app_id: Option<String>,
        pid: Option<Option<u32>>,
    ) -> (r: bool)
        ensures
            r == (handle_index(old(self)@, handle_id@) >= 0),
            !r ==> final(self)@ == old(self)@,
            r ==> ({
                let i = handle_index(old(self)@, handle_id@);
                let e = old(self)@[i];
                let e2 = ForeignToplevelEntry {
                    title: match title {
                        Some(t) => t,
                        None => e.title,
                    },
                    app_id: match app_id {
                        Some(a) => a,
                        None => e.app_id,
                    },
                    pid: match pid {
                        Some(p) => p,
                        None => e.pid,
                    },
                    ..e
                };
                final(self)@ == old(self)@.update(i, with_rules(e2))
            }),
    {
        proof {
            use_type_invariant(&*self);
        }
        let h = str_chars(handle_id);
        let i = match self.find_handle(&h) {
            Some(i) => i,
            None => {
                return false;
            },
        };
        let mut e = clone_entry(&self.entries[i]);
        if let Some(t) = title {
            e.title = t;
        }
        if let Some(a) = app_id {
            e.app_id = a;
        }
        if let Some(p) = pid {
            e.pid = p;
        }
        e.apply_default_rules();
        assert(handles_distinct(self.entries@.update(i as int, e)));
        let mut v = self.take_entries();
        v.set(i, e);
        self.entries = v;
        true
    }

    /// Remove a closed toplevel handle; true if it was known.
    pub fn close(&mut self, handle_id: &str) -> (r: bool)
        ensures
            r == (handle_index(old(self)@, handle_id@) >= 0),
            r ==> final(self)@ == old(self)@.remove(handle_index(old(self)@, handle_id@)),
            !r ==> final(self)@ == old(self)@,
    {
        proof {
            use_type_invariant(&*self);
        }
        let h = str_chars(handle_id);
        match self.find_handle(&h) {
            Some(i) => {
                assert(handles_distinct(self.entries@.remove(i as int)));
                let mut v = self.take_entries();
                v.remove(i);
                self.entries = v;
                true
            },
            None => false,
        }
    }

    /// Force Quit list labels (skipping `skip_taskbar` entries), sorted.
    pub fn force_quit_labels(&self) -> (r: Vec<String>)
        ensures
            string_views(r@) == sort_texts(shown_labels(self@)),
    {
        let mut labels: Vec<String> = Vec::new();
        let mut i: usize = 0;
        assert(self.entries@.take(0) =~= Seq::<ForeignToplevelEntry>::empty());
        while i < self.entries.len()
            invariant
                i <= self.entries@.len(),
                string_views(labels@) == shown_labels(self.entries@.take(i as int)),
            decreases self.entries@.len() - i,
        {
            let e = &self.entries[i];
            assert(self.entries@.take(i + 1).drop_last() =~= self.entries@.take(i as int));
            assert(self.entries@.take(i + 1).last() == self.entries@[i as int]);
            if !e.skip_taskbar {
                let ghost before = string_views(labels@);
                labels.push(label_of(e));
                assert(string_views(labels@) =~= before.push(force_quit_label(*e)));
            }
            i = i + 1;
        }
        assert(self.entries@.take(self.entries@.len() as int) =~= self.entries@);
        let mut sorted: Vec<String> = Vec::new();
        let mut k: usize = 0;
        let ghost lv = string_views(labels@);
        assert(lv.take(0) =~= Seq::<Seq<char>>::empty());
        assert(string_views(sorted@) =~= Seq::<Seq<char>>::empty());
        while k < labels.len()
            invariant
                lv == string_views(labels@),
                k <= labels@.len(),
                string_views(sorted@) == sort_texts(lv.take(k as int)),
            decreases labels@.len() - k,
        {
            assert(lv.take(k + 1).drop_last() =~= lv.take(k as int));
            assert(lv.take(k + 1).last() == labels@[k as int]@);
            insert_string(&mut sorted, labels[k].clone());
            k = k + 1;
        }
        assert(lv.take(lv.len() as int) =~= lv);
        sorted
    }

    fn find_designated(&self, target: &ToplevelForceQuit) -> (r: Option<usize>)
        ensures
            match r {
                Some(i) => i as int == match_index(self@, *target) && i < self@.len(),
                None => match_index(self@, *target) == -1,
            },
    {
        proof {
            lemma_match_index(self@, *target);
        }
        let mut i: usize = 0;
        while i < self.entries.len()
            invariant
                i <= self.entries@.len(),
                forall|j: int| 0 <= j < i ==> !designates(self.entries@[j], *target),
                -1 <= match_index(self.entries@, *target) < self.entries@.len(),
                match_index(self.entries@, *target) >= 0 ==> designates(
                    self.entries@[match_index(self.entries@, *target)],
                    *target,
                ),
                match_index(self.entries@, *target) >= 0 ==> forall|j: int|
                    0 <= j < match_index(self.entries@, *target) ==> !designates(
                        self.entries@[j],
                        *target,
                    ),
                match_index(self.entries@, *target) < 0 ==> forall|j: int|
                    0 <= j < self.entries@.len() ==> !designates(self.entries@[j], *target),
            decreases self.entries@.len() - i,
        {
            if designates_exec(&self.entries[i], target) {
                proof {
                    let k = match_index(self.entries@, *target);
                    if k < 0 || k > i {
                        assert(!designates(self.entries@[i as int], *target));
                    } else if k < i {
                        assert(!designates(self.entries@[k], *target));
                    }
                }
                return Some(i);
            }
            i = i + 1;
        }
        None
    }

    /// Entry matching a parsed Force Quit target (by pid, else title/app_id).
    pub fn find_match(&self, target: &ToplevelForceQuit) -> (r: Option<&ForeignToplevelEntry>)
        ensures
            match r {
                Some(e) => match_index(self@, *target) >= 0 && *e == self@[match_index(
                    self@,
                    *target,
                )],
                None => match_index(self@, *target) < 0,
            },
    {
        match self.find_designated(target) {
            Some(i) => Some(&self.entries[i]),
            None => None,
        }
    }

    /// Remove the entry matching target (does not kill) and hand it back.
    pub fn remove_match(&mut self, target: &ToplevelForceQuit) -> (r: Option<ForeignToplevelEntry>)
        ensures
            match_index(old(self)@, *target) < 0 ==> r is None && final(self)@ == old(self)@,
            match_index(old(self)@, *target) >= 0 ==> ({
                let m = match_index(old(self)@, *target);
                &&& r == Some(old(self)@[m])
                &&& final(self)@ == old(self)@.remove(m)
            }),
    {
        proof {
            use_type_invariant(&*self);
        }
        match self.find_designated(target) {
            Some(i) => {
                assert(handles_distinct(self.entries@.remove(i as int)));
                let mut v = self.take_entries();
                let e = v.remove(i);
                self.entries = v;
                Some(e)
            },
            None => None,
        }
    }
}

fn label_of(e: &ForeignToplevelEntry) -> (r: String)
    ensures
        r@ == force_quit_label(*e),
{
    let mut v = str_chars("toplevel: ");
    let t = str_chars(e.title.as_str());
    push_chars(&mut v, &t);
    match e.pid {
        Some(p) => {
            push_str_chars(&mut v, " (pid ");
            push_decimal(&mut v, p as u64);
            push_str_chars(&mut v, ")");
        },
        None => {
            push_str_chars(&mut v, " [");
            let a = str_chars(e.app_id.as_str());
            push_chars(&mut v, &a);
            push_str_chars(&mut v, "]");
        },
    }
    chars_to_string(&v)
}

/// Parse result of a Force Quit label: title, application id, pid.
pub open spec fn parsed_force_quit(entry: Seq<char>) -> Option<
    (Seq<char>, Option<Seq<char>>, Option<u32>),
> {
    let e = trim(entry);
    if !starts_with(e, "toplevel:"@) {
        None
    } else {
        let rest = trim(e.skip(9));
        if rest.len() == 0 {
            None
        } else {
            let s = rfind(rest, " (pid "@);
            if s >= 0 {
                let title = trim(rest.take(s));
                let after = rest.skip(s + 6);
                if title.len() == 0 || !ends_with(after, ")"@) {
                    None
                } else {
                    match parse_u32(trim(after.drop_last())) {
                        Some(pid) => Some((title, None, Some(pid))),
                        None => None,
                    }
                }
            } else {
                let o = rfind(rest, " ["@);
                if o >= 0 && ends_with(rest, "]"@) {
                    let title = trim(rest.take(o));
                    let app = trim(rest.subrange(o + 2, rest.len() - 1));
                    if title.len() == 0 || app.len() == 0 {
                        None
                    } else {
                        Some((title, Some(app), None))
                    }
                } else {
                    None
                }
            }
        }
    }
}

/// The texts of a parsed Force Quit target.
pub open spec fn force_quit_view(t: ToplevelForceQuit) -> (Seq<char>, Option<Seq<char>>, Option<u32>) {
    (t.title@, match t.app_id {
        Some(a) => Some(a@),
        None => None,
    }, t.pid)
}

/// Parse Force Quit list labels `toplevel: {title} (pid {n})` and
/// `toplevel: {title} [{app_id}]`.
pub fn parse_toplevel_force_quit(entry: &str) -> (r: Option<ToplevelForceQuit>)
    ensures
        match r {
            Some(t) => parsed_force_quit(entry@) == Some(force_quit_view(t)),
            None => parsed_force_quit(entry@) is None,
        },
{
    proof {
        reveal_strlit("toplevel:");
        reveal_strlit(" (pid ");
    }
    let raw = str_chars(entry);
    let e = trim_chars(&raw);
    if !starts_with_str(&e, "toplevel:") {
        return None;
    }
    let after_prefix = slice_chars(&e, 9, e.len());
    assert(after_prefix@ =~= e@.skip(9));
    let rest = trim_chars(&after_prefix);
    if rest.len() == 0 {
        return None;
    }
    match rfind_str(&rest, " (pid ") {
        Some(s) => {
            let head = slice_chars(&rest, 0, s);
            assert(head@ =~= rest@.take(s as int));
            let title = trim_chars(&head);
            if title.len() == 0 {
                return None;
            }
            let after = slice_chars(&rest, s + 6, rest.len());
            assert(after@ =~= rest@.skip(s + 6));
            if !ends_with_str(&after, ")") {
                return None;
            }
            proof {
                reveal_strlit(")");
            }
            let body = slice_chars(&after, 0, after.len() - 1);
            assert(body@ =~= after@.drop_last());
            let digits = trim_chars(&body);
            match parse_u32_chars(&digits) {
                Some(pid) => Some(
                    ToplevelForceQuit { title: chars_to_string(&title), app_id: None, pid: Some(pid) },
                ),
                None => None,
            }
        },
        None => {
            proof {
                reveal_strlit(" [");
                reveal_strlit("]");
            }
            match rfind_str(&rest, " [") {
                Some(o) => {
                    if !ends_with_str(&rest, "]") {
                        return None;
                    }
                    assert(rest@[rest@.len() - 1] == ']') by {
                        assert(rest@.skip(rest@.len() - 1)[0] == rest@[rest@.len() - 1]);
                    }
                    assert(rest@[o + 1] == '[') by {
                        assert(rest@.subrange(o as int, o + 2) == " ["@);
                        assert(rest@.subrange(o as int, o + 2)[1] == rest@[o + 1]);
                    }
                    let head = slice_chars(&rest, 0, o);
                    assert(head@ =~= rest@.take(o as int));
                    let title = trim_chars(&head);
                    let mid = slice_chars(&rest, o + 2, rest.len() - 1);
                    let app = trim_chars(&mid);
                    if title.len() == 0 || app.len() == 0 {
                        return None;
                    }
                    Some(
                        ToplevelForceQuit {
                            title: chars_to_string(&title),
                            app_id: Some(chars_to_string(&app)),
                            pid: None,
                        },
                    )
                },
                None => None,
            }
        },
    }
}

/// Apply a toplevel Force Quit to the registry: remove the matching entry and
/// say which pid to signal (the removed entry's, else the target's). Returns
/// whether an entry was removed or a known non-zero pid is to be signalled,
/// and that pid.
pub fn apply_toplevel_force_quit(
    registry: &mut ForeignToplevelRegistry,
    target: &ToplevelForceQuit,
) -> (r: (bool, Option<u32>))
    ensures
        match_index(old(registry)@, *target) < 0 ==> final(registry)@ == old(registry)@ && r == (
            match target.pid {
                Some(p) => (p != 0, Some(p)),
                None => (false, None),
            }
        ),
        match_index(old(registry)@, *target) >= 0 ==> ({
            let m = match_index(old(registry)@, *target);
            let pid = match old(registry)@[m].pid {
                Some(p) => Some(p),
                None => target.pid,
            };
            &&& final(registry)@ == old(registry)@.remove(m)
            &&& r == (true, pid)
        }),
{
    let removed = registry.remove_match(target);
    let pid = match &removed {
        Some(e) => match e.pid {
            Some(p) => Some(p),
            None => target.pid,
        },
        None => target.pid,
    };
    match pid {
        Some(p) => (removed.is_some() || p != 0, Some(p)),
        None => (removed.is_some(), None),
    }
}

/// A rule-placed foreign entry claims a shell window when the window has
/// its title, or when the window title contains the entry's (non-empty)
/// application id, ASCII case ignored.
pub open spec fn claims_window(e: ForeignToplevelEntry, title: Seq<char>) -> bool {
    title == e.title@ || (e.app_id@.len() > 0 && crate::text::contains_seq(
        crate::text::lower(title),
        crate::text::lower(e.app_id@),
    ))
}

/// A rule's workspace, kept below `desktop_count` (0 when there is none).
pub open spec fn clamped_workspace(ws: u8, desktop_count: nat) -> nat {
    let top: nat = if desktop_count > 0 {
        (desktop_count - 1) as nat
    } else {
        0
    };
    if ws <= top {
        ws as nat
    } else {
        top
    }
}

/// The workspace of a shell window once the rule-placed entries are
/// applied in order: the last entry that claims it decides.
pub open spec fn rule_workspace(
    entries: Seq<ForeignToplevelEntry>,
    title: Seq<char>,
    current: nat,
    desktop_count: nat,
) -> nat
    decreases entries.len(),
{
    if entries.len() == 0 {
        current
    } else {
        let before = rule_workspace(entries.drop_last(), title, current, desktop_count);
        let e = entries.last();
        match e.workspace {
            Some(ws) => if claims_window(e, title) {
                clamped_workspace(ws, desktop_count)
            } else {
                before
            },
            None => before,
        }
    }
}

/// The workspace a shell window titled `window_title`, now on `current`,
/// moves to under the rules of the registry's entries.
pub fn rule_workspace_for_window(
    registry: &ForeignToplevelRegistry,
    window_title: &str,
    current: usize,
    desktop_count: usize,
) -> (r: usize)
    ensures
        r as nat == rule_workspace(registry@, window_title@, current as nat, desktop_count as nat),
{
    let entries = registry.entries();
    let tv = str_chars(window_title);
    let tl = crate::text::lower_chars(&tv);
    let top: usize = if desktop_count > 0 {
        desktop_count - 1
    } else {
        0
    };
    let mut ws_now: usize = current;
    let mut i: usize = 0;
    assert(entries@.take(0) =~= Seq::<ForeignToplevelEntry>::empty());
    while i < entries.len()
        invariant
            i <= entries@.len(),
            entries@ == registry@,
            tv@ == window_title@,
            tl@ == crate::text::lower(window_title@),
            top as nat == (if desktop_count > 0 {
                (desktop_count - 1) as nat
            } else {
                0nat
            }),
            ws_now as nat == rule_workspace(entries@.take(i as int), window_title@, current as nat, desktop_count as nat),
        decreases entries@.len() - i,
    {
        let e = &entries[i];
        assert(entries@.take(i + 1).drop_last() =~= entries@.take(i as int));
        assert(entries@.take(i + 1).last() == *e);
        if let Some(ws) = e.workspace {
            let et = str_chars(e.title.as_str());
            let title_match = chars_eq(&tv, &et);
            let av = str_chars(e.app_id.as_str());
            let app_match = if av.len() > 0 {
                let al = crate::text::lower_chars(&av);
                crate::text::contains_chars(&tl, &al)
            } else {
                false
            };
            if title_match || app_match {
                ws_now = if (ws as usize) <= top {
                    ws as usize
                } else {
                    top
                };
            }
        }
        i = i + 1;
    }
    assert(entries@.take(i as int) =~= entries@);
    ws_now
}

} // verus!
