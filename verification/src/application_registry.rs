//! Running applications, one per bundle id, and which one has focus.
use vstd::prelude::*;

use crate::text::{chars_eq, owned, str_chars};

verus! {

#[verifier::external_type_specification]
#[verifier::external_body]
pub struct ExUuid(uuid::Uuid);

#[verifier::external_type_specification]
#[verifier::external_body]
pub struct ExInstant(std::time::Instant);

/// Trusted: std `Instant::now`. Nothing is stated of the instant: it is the
/// clock's reading at the call.
#[verifier::external_body]
fn now() -> (r: std::time::Instant) {
    std::time::Instant::now()
}

/// A running application.
pub struct RunningApp {
    pub bundle_id: String,
    pub pid: Option<u32>,
    pub windows: Vec<uuid::Uuid>,
    pub focused: bool,
    pub launch_time: std::time::Instant,
}

/// Index of the application with this bundle id, or `-1`.
pub open spec fn app_index(s: Seq<RunningApp>, id: Seq<char>) -> int
    decreases s.len(),
{
    if s.len() == 0 {
        -1
    } else if app_index(s.drop_last(), id) >= 0 {
        app_index(s.drop_last(), id)
    } else if s.last().bundle_id@ == id {
        s.len() - 1
    } else {
        -1
    }
}

pub proof fn lemma_app_index(s: Seq<RunningApp>, id: Seq<char>)
    ensures
        -1 <= app_index(s, id) < s.len(),
        app_index(s, id) >= 0 ==> s[app_index(s, id)].bundle_id@ == id,
        app_index(s, id) < 0 ==> forall|j: int| 0 <= j < s.len() ==> s[j].bundle_id@ != id,
        app_index(s, id) >= 0 ==> forall|j: int| 0 <= j < app_index(s, id) ==> s[j].bundle_id@ != id,
    decreases s.len(),
{
    if s.len() > 0 {
        lemma_app_index(s.drop_last(), id);
        assert forall|j: int| 0 <= j < s.len() - 1 implies s[j] == s.drop_last()[j] by {}
    }
}

/// No bundle id is registered twice.
pub open spec fn ids_distinct(s: Seq<RunningApp>) -> bool {
    forall|i: int, j: int| 0 <= i < j < s.len() ==> s[i].bundle_id@ != s[j].bundle_id@
}

/// A just-registered application of `id`: no pid, no windows, not focused.
pub open spec fn fresh_app(a: RunningApp, id: Seq<char>) -> bool {
    &&& a.bundle_id@ == id
    &&& a.pid is None
    &&& a.windows@.len() == 0
    &&& !a.focused
}

/// Running applications, keyed by bundle id.
pub struct ApplicationRegistry {
    apps: Vec<RunningApp>,
}

impl ApplicationRegistry {
    #[verifier::type_invariant]
    closed spec fn keyed(self) -> bool {
        ids_distinct(self.apps@)
    }

    /// The running applications, in registration order.
    pub closed spec fn view(self) -> Seq<RunningApp> {
        self.apps@
    }

    pub fn new() -> (r: Self)
        ensures
            r.view() == Seq::<RunningApp>::empty(),
    {
        ApplicationRegistry { apps: Vec::new() }
    }

    fn find(&self, id: &str) -> (r: Option<usize>)
        ensures
            match r {
                Some(i) => i as int == app_index(self.view(), id@) && i < self.view().len(),
                None => app_index(self.view(), id@) < 0,
            },
    {
        proof {
            lemma_app_index(self.apps@, id@);
            use_type_invariant(self);
        }
        let idv = str_chars(id);
        let mut i: usize = 0;
        while i < self.apps.len()
            invariant
                i <= self.apps@.len(),
                idv@ == id@,
                ids_distinct(self.apps@),
                forall|j: int| 0 <= j < i ==> self.apps@[j].bundle_id@ != id@,
                -1 <= app_index(self.apps@, id@) < self.apps@.len(),
                app_index(self.apps@, id@) >= 0 ==> self.apps@[app_index(self.apps@, id@)].bundle_id@
                    == id@,
                app_index(self.apps@, id@) < 0 ==> forall|j: int|
                    0 <= j < self.apps@.len() ==> self.apps@[j].bundle_id@ != id@,
            decreases self.apps@.len() - i,
        {
            let v = str_chars(self.apps[i].bundle_id.as_str());
            if chars_eq(&v, &idv) {
                proof {
                    let k = app_index(self.apps@, id@);
                    if k != i {
                        assert(self.apps@[k].bundle_id@ == self.apps@[i as int].bundle_id@);
                    }
                }
                return Some(i);
            }
            i = i + 1;
        }
        None
    }

    fn take_apps(&mut self) -> (r: Vec<RunningApp>)
        ensures
            r@ == old(self).view(),
            final(self).view() == Seq::<RunningApp>::empty(),
    {
        let mut v: Vec<RunningApp> = Vec::new();
        std::mem::swap(&mut v, &mut self.apps);
        v
    }

    /// Register `bundle_id` as running (replacing its record when present).
    pub fn register(&mut self, bundle_id: &str)
        ensures
            ({
                let i = app_index(old(self).view(), bundle_id@);
                if i >= 0 {
                    &&& final(self).view().len() == old(self).view().len()
                    &&& forall|j: int| 0 <= j < old(self).view().len() && j != i ==> final(self).view()[j]
                        == old(self).view()[j]
                    &&& fresh_app(final(self).view()[i], bundle_id@)
                } else {
                    &&& final(self).view().len() == old(self).view().len() + 1
                    &&& final(self).view().drop_last() == old(self).view()
                    &&& fresh_app(final(self).view().last(), bundle_id@)
                }
            }),
    {
        proof {
            use_type_invariant(&*self);
            lemma_app_index(self.apps@, bundle_id@);
        }
        let app = RunningApp {
            bundle_id: owned(bundle_id),
            pid: None,
            windows: Vec::new(),
            focused: false,
            launch_time: now(),
        };
        match self.find(bundle_id) {
            Some(i) => {
                assert(ids_distinct(self.apps@.update(i as int, app)));
                let mut v = self.take_apps();
                v.set(i, app);
                self.apps = v;
            },
            None => {
                assert(ids_distinct(self.apps@.push(app)));
                let mut v = self.take_apps();
                v.push(app);
                self.apps = v;
                assert(self.apps@.drop_last() =~= old(self).apps@);
            },
        }
    }

    /// Forget `bundle_id`.
    pub fn unregister(&mut self, bundle_id: &str)
        ensures
            app_index(old(self).view(), bundle_id@) >= 0 ==> final(self).view() == old(self).view().remove(
                app_index(old(self).view(), bundle_id@),
            ),
            app_index(old(self).view(), bundle_id@) < 0 ==> final(self).view() == old(self).view(),
    {
        proof {
            use_type_invariant(&*self);
        }
        match self.find(bundle_id) {
            Some(i) => {
                assert(ids_distinct(self.apps@.remove(i as int)));
                let mut v = self.take_apps();
                v.remove(i);
                self.apps = v;
            },
            None => {},
        }
    }

    /// The running applications, in registration order.
    pub fn running_apps(&self) -> (r: Vec<&RunningApp>)
        ensures
            ids_distinct(self.view()),
            r@.len() == self.view().len(),
            forall|i: int| 0 <= i < r@.len() ==> *r@[i] == self.view()[i],
    {
        proof {
            use_type_invariant(self);
        }
        let mut out: Vec<&RunningApp> = Vec::new();
        let mut i: usize = 0;
        while i < self.apps.len()
            invariant
                i <= self.apps@.len(),
                out@.len() == i,
                forall|j: int| 0 <= j < i ==> *out@[j] == self.apps@[j],
            decreases self.apps@.len() - i,
        {
            out.push(&self.apps[i]);
            i = i + 1;
        }
        out
    }

    /// Whether `bundle_id` is running.
    pub fn is_running(&self, bundle_id: &str) -> (r: bool)
        ensures
            r == (app_index(self.view(), bundle_id@) >= 0),
    {
        self.find(bundle_id).is_some()
    }

    /// The first focused application.
    pub fn focused_app(&self) -> (r: Option<&RunningApp>)
        ensures
            match r {
                Some(a) => exists|i: int|
                    0 <= i < self.view().len() && *a == self.view()[i] && a.focused && forall|j: int|
                        0 <= j < i ==> !self.view()[j].focused,
                None => forall|j: int| 0 <= j < self.view().len() ==> !self.view()[j].focused,
            },
    {
        let mut i: usize = 0;
        while i < self.apps.len()
            invariant
                i <= self.apps@.len(),
                forall|j: int| 0 <= j < i ==> !self.apps@[j].focused,
            decreases self.apps@.len() - i,
        {
            if self.apps[i].focused {
                return Some(&self.apps[i]);
            }
            i = i + 1;
        }
        None
    }

    /// Focus `bundle_id`: every record's focus becomes whether it is that id.
    pub fn set_focused(&mut self, bundle_id: &str)
        ensures
            final(self).view().len() == old(self).view().len(),
            forall|j: int|
                0 <= j < old(self).view().len() ==> final(self).view()[j] == (RunningApp {
                    focused: old(self).view()[j].bundle_id@ == bundle_id@,
                    ..old(self).view()[j]
                }),
    {
        proof {
            use_type_invariant(&*self);
        }
        let idv = str_chars(bundle_id);
        let mut rest = self.take_apps();
        let ghost all = rest@;
        let n = rest.len();
        let mut out: Vec<RunningApp> = Vec::new();
        let mut k: usize = 0;
        assert(all.skip(0) =~= all);
        while rest.len() > 0
            invariant
                idv@ == bundle_id@,
                n == all.len(),
                ids_distinct(all),
                k <= n,
                rest@ == all.skip(k as int),
                out@.len() == k,
                forall|j: int|
                    0 <= j < k ==> out@[j] == (RunningApp {
                        focused: all[j].bundle_id@ == bundle_id@,
                        ..all[j]
                    }),
            decreases rest@.len(),
        {
            let mut a = rest.remove(0);
            assert(a == all[k as int]);
            assert(rest@ =~= all.skip(k + 1));
            let v = str_chars(a.bundle_id.as_str());
            a.focused = chars_eq(&v, &idv);
            out.push(a);
            k = k + 1;
        }
        assert(ids_distinct(out@)) by {
            assert forall|i: int, j: int| 0 <= i < j < out@.len() implies out@[i].bundle_id@
                != out@[j].bundle_id@ by {
                assert(out@[i].bundle_id == all[i].bundle_id);
                assert(out@[j].bundle_id == all[j].bundle_id);
            }
        }
        self.apps = out;
    }
}

/// After focusing an id, at most one application is focused: the one with
/// that id, when it is running.
pub proof fn law_focus_is_exclusive(s: Seq<RunningApp>, id: Seq<char>, i: int, j: int)
    requires
        ids_distinct(s),
        0 <= i < s.len(),
        0 <= j < s.len(),
        s[i].bundle_id@ == id,
        s[j].bundle_id@ == id,
    ensures
        i == j,
{
}

} // verus!
