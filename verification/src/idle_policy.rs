//! Session idle / lock timeout policy.
//!
//! Pure timers and inhibit rules: callers feed the seconds since the last user
//! activity and learn whether the session should dim, lock or sleep.
use vstd::prelude::*;

use crate::conf::{conf_bool, conf_bool_exec, conf_entries, parse_conf_entries};
use crate::text::{eq_str, parse_u64, parse_u64_chars};

verus! {

/// Idle phase the session is in.
#[derive(Clone, Copy, Debug, Eq, PartialEq, Structural)]
pub enum IdlePhase {
    Active,
    /// Dim / DPMS warning window.
    IdleWarn,
    /// Should show lock screen.
    ShouldLock,
    /// Beyond lock; optional suspend request.
    ShouldSuspend,
}

/// Idle configuration (seconds).
#[derive(Clone, Debug, Eq, PartialEq, Structural)]
pub struct IdleConfig {
    /// Seconds of inactivity before idle warning / dim.
    pub warn_after_secs: u64,
    /// Seconds of inactivity before auto-lock (0 = never).
    pub lock_after_secs: u64,
    /// Seconds of inactivity before suspend (0 = never).
    pub suspend_after_secs: u64,
    pub lock_on_suspend: bool,
    /// When true, idle progression is frozen (video / presentation).
    pub inhibited: bool,
}

/// Defaults: warn after 5 minutes, lock after 10, suspend after 30.
pub open spec fn default_idle_config() -> IdleConfig {
    IdleConfig {
        warn_after_secs: 300,
        lock_after_secs: 600,
        suspend_after_secs: 1800,
        lock_on_suspend: true,
        inhibited: false,
    }
}

impl Default for IdleConfig {
    fn default() -> (r: Self)
        ensures
            r == default_idle_config(),
    {
        IdleConfig {
            warn_after_secs: 5 * 60,
            lock_after_secs: 10 * 60,
            suspend_after_secs: 30 * 60,
            lock_on_suspend: true,
            inhibited: false,
        }
    }
}

/// Configuration after one settings entry; a number that does not parse as a
/// `u64` leaves the field unchanged.
pub open spec fn idle_apply(c: IdleConfig, e: (Seq<char>, Seq<char>)) -> IdleConfig {
    let k = e.0;
    let v = e.1;
    if k == "idle_warn_secs"@ || k == "idle.warn_after"@ {
        match parse_u64(v) {
            Some(n) => IdleConfig { warn_after_secs: n, ..c },
            None => c,
        }
    } else if k == "idle_lock_secs"@ || k == "idle.lock_after"@ || k == "lock_after_secs"@ {
        match parse_u64(v) {
            Some(n) => IdleConfig { lock_after_secs: n, ..c },
            None => c,
        }
    } else if k == "idle_suspend_secs"@ || k == "idle.suspend_after"@ {
        match parse_u64(v) {
            Some(n) => IdleConfig { suspend_after_secs: n, ..c },
            None => c,
        }
    } else if k == "lock_on_suspend"@ {
        IdleConfig { lock_on_suspend: conf_bool(v), ..c }
    } else {
        c
    }
}

/// Configuration after a sequence of settings entries, applied in order.
pub open spec fn idle_apply_all(c: IdleConfig, es: Seq<(Seq<char>, Seq<char>)>) -> IdleConfig
    decreases es.len(),
{
    if es.len() == 0 {
        c
    } else {
        idle_apply(idle_apply_all(c, es.drop_last()), es.last())
    }
}

impl IdleConfig {
    /// Parse from settings.conf flat keys over the defaults.
    pub fn parse_from_conf(text: &str) -> (r: Self)
        ensures
            r == idle_apply_all(default_idle_config(), conf_entries(text@)),
    {
        let entries = parse_conf_entries(text);
        let ghost es = conf_entries(text@);
        let mut cfg = IdleConfig::default();
        let mut i: usize = 0;
        assert(es.take(0) =~= Seq::<(Seq<char>, Seq<char>)>::empty());
        while i < entries.len()
            invariant
                es == conf_entries(text@),
                entries@.len() == es.len(),
                forall|k: int|
                    0 <= k < entries@.len() ==> (#[trigger] entries@[k]).key@ == es[k].0
                        && entries@[k].value@ == es[k].1,
                i <= entries@.len(),
                cfg == idle_apply_all(default_idle_config(), es.take(i as int)),
            decreases entries@.len() - i,
        {
            let e = &entries[i];
            assert(es.take(i + 1).drop_last() =~= es.take(i as int));
            assert(es.take(i + 1).last() == es[i as int]);
            if eq_str(&e.key, "idle_warn_secs") || eq_str(&e.key, "idle.warn_after") {
                if let Some(n) = parse_u64_chars(&e.value) {
                    cfg.warn_after_secs = n;
                }
            } else if eq_str(&e.key, "idle_lock_secs") || eq_str(&e.key, "idle.lock_after")
                || eq_str(&e.key, "lock_after_secs") {
                if let Some(n) = parse_u64_chars(&e.value) {
                    cfg.lock_after_secs = n;
                }
            } else if eq_str(&e.key, "idle_suspend_secs") || eq_str(&e.key, "idle.suspend_after") {
                if let Some(n) = parse_u64_chars(&e.value) {
                    cfg.suspend_after_secs = n;
                }
            } else if eq_str(&e.key, "lock_on_suspend") {
                cfg.lock_on_suspend = conf_bool_exec(&e.value);
            }
            i = i + 1;
        }
        assert(es.take(es.len() as int) =~= es);
        cfg
    }
}

/// Why idle is inhibited.
#[derive(Clone, Copy, Debug, Eq, PartialEq, Hash, Structural)]
pub enum InhibitReason {
    /// Media playback / screencast.
    Media,
    /// User presentation mode.
    Presentation,
    /// Active full-screen app requested inhibit.
    FullscreenApp,
    /// Manual / debug.
    Manual,
}

/// `s` with every `x` removed.
pub open spec fn without(s: Seq<InhibitReason>, x: InhibitReason) -> Seq<InhibitReason>
    decreases s.len(),
{
    if s.len() == 0 {
        Seq::empty()
    } else if s.last() == x {
        without(s.drop_last(), x)
    } else {
        without(s.drop_last(), x).push(s.last())
    }
}

/// Track multiple inhibit tokens (each reason held at most once).
#[derive(Clone, Debug, Eq, PartialEq)]
pub struct IdleInhibitState {
    reasons: Vec<InhibitReason>,
}

impl View for IdleInhibitState {
    type V = Seq<InhibitReason>;

    closed spec fn view(&self) -> Seq<InhibitReason> {
        self.reasons@
    }
}

impl Default for IdleInhibitState {
    fn default() -> (r: Self)
        ensures
            r@ == Seq::<InhibitReason>::empty(),
    {
        IdleInhibitState { reasons: Vec::new() }
    }
}

impl IdleInhibitState {
    pub fn new() -> (r: Self)
        ensures
            r@ == Seq::<InhibitReason>::empty(),
    {
        IdleInhibitState { reasons: Vec::new() }
    }

    /// Hold `reason` (no-op when already held).
    pub fn add(&mut self, reason: InhibitReason)
        ensures
            final(self)@ == holding(old(self)@, reason),
    {
        let mut i: usize = 0;
        while i < self.reasons.len()
            invariant
                i <= self.reasons@.len(),
                forall|j: int| 0 <= j < i ==> self.reasons@[j] != reason,
            decreases self.reasons@.len() - i,
        {
            if self.reasons[i] == reason {
                assert(self.reasons@[i as int] == reason);
                return;
            }
            i = i + 1;
        }
        self.reasons.push(reason);
    }

    /// Release every hold of `reason`.
    pub fn remove(&mut self, reason: InhibitReason)
        ensures
            final(self)@ == without(old(self)@, reason),
    {
        let mut kept: Vec<InhibitReason> = Vec::new();
        let mut i: usize = 0;
        assert(self.reasons@.take(0) =~= Seq::<InhibitReason>::empty());
        while i < self.reasons.len()
            invariant
                i <= self.reasons@.len(),
                kept@ == without(self.reasons@.take(i as int), reason),
            decreases self.reasons@.len() - i,
        {
            assert(self.reasons@.take(i + 1).drop_last() =~= self.reasons@.take(i as int));
            if self.reasons[i] != reason {
                kept.push(self.reasons[i]);
            }
            i = i + 1;
        }
        assert(self.reasons@.take(self.reasons@.len() as int) =~= self.reasons@);
        self.reasons = kept;
    }

    /// Whether any reason is held.
    pub fn is_inhibited(&self) -> (r: bool)
        ensures
            r == (self@.len() > 0),
    {
        self.reasons.len() > 0
    }

    pub fn reasons(&self) -> (r: &[InhibitReason])
        ensures
            r@ == self@,
    {
        self.reasons.as_slice()
    }
}

/// Phase after `idle` seconds of inactivity.
pub open spec fn phase_of(c: IdleConfig, idle: u64, locked: bool, inhibited: bool) -> IdlePhase {
    if c.inhibited || inhibited {
        IdlePhase::Active
    } else if c.suspend_after_secs > 0 && idle >= c.suspend_after_secs {
        IdlePhase::ShouldSuspend
    } else if !locked && c.lock_after_secs > 0 && idle >= c.lock_after_secs {
        IdlePhase::ShouldLock
    } else if c.warn_after_secs > 0 && idle >= c.warn_after_secs {
        IdlePhase::IdleWarn
    } else {
        IdlePhase::Active
    }
}

/// Idle phase from config + seconds since last user activity;
/// `already_locked` prevents re-requesting lock while locked.
pub fn idle_phase(cfg: &IdleConfig, idle_secs: u64, already_locked: bool, inhibit: &IdleInhibitState) -> (r:
    IdlePhase)
    ensures
        r == phase_of(*cfg, idle_secs, already_locked, inhibit@.len() > 0),
{
    if cfg.inhibited || inhibit.is_inhibited() {
        return IdlePhase::Active;
    }
    if cfg.suspend_after_secs > 0 && idle_secs >= cfg.suspend_after_secs {
        return IdlePhase::ShouldSuspend;
    }
    if !already_locked && cfg.lock_after_secs > 0 && idle_secs >= cfg.lock_after_secs {
        return IdlePhase::ShouldLock;
    }
    if cfg.warn_after_secs > 0 && idle_secs >= cfg.warn_after_secs {
        return IdlePhase::IdleWarn;
    }
    IdlePhase::Active
}

/// Recommended session action for a phase.
#[derive(Clone, Copy, Debug, Eq, PartialEq, Structural)]
pub enum IdleRecommendedAction {
    NoAction,
    DimDisplay,
    Lock,
    Suspend,
}

/// Action recommended in `phase`: dim when warning, lock when due and not yet
/// locked, suspend when due.
pub fn recommended_action(phase: IdlePhase, already_locked: bool) -> (r: IdleRecommendedAction)
    ensures
        r == match phase {
            IdlePhase::Active => IdleRecommendedAction::NoAction,
            IdlePhase::IdleWarn => IdleRecommendedAction::DimDisplay,
            IdlePhase::ShouldLock => if already_locked {
                IdleRecommendedAction::NoAction
            } else {
                IdleRecommendedAction::Lock
            },
            IdlePhase::ShouldSuspend => IdleRecommendedAction::Suspend,
        },
{
    match phase {
        IdlePhase::Active => IdleRecommendedAction::NoAction,
        IdlePhase::IdleWarn => IdleRecommendedAction::DimDisplay,
        IdlePhase::ShouldLock => if !already_locked {
            IdleRecommendedAction::Lock
        } else {
            IdleRecommendedAction::NoAction
        },
        IdlePhase::ShouldSuspend => IdleRecommendedAction::Suspend,
    }
}

/// Smaller of two optional counts (`None` when both are absent).
pub open spec fn min_opt(a: Option<u64>, b: Option<u64>) -> Option<u64> {
    match (a, b) {
        (Some(x), Some(y)) => Some(if x <= y {
            x
        } else {
            y
        }),
        (Some(x), None) => Some(x),
        (None, Some(y)) => Some(y),
        (None, None) => None,
    }
}

fn min_opt_exec(a: Option<u64>, b: Option<u64>) -> (r: Option<u64>)
    ensures
        r == min_opt(a, b),
{
    match (a, b) {
        (Some(x), Some(y)) => Some(if x <= y {
            x
        } else {
            y
        }),
        (Some(x), None) => Some(x),
        (None, Some(y)) => Some(y),
        (None, None) => None,
    }
}

/// Seconds until the next configured threshold still ahead (warn; lock when
/// not locked; suspend), if any.
pub open spec fn next_phase_secs(c: IdleConfig, idle: u64, locked: bool) -> Option<u64> {
    if c.inhibited {
        None
    } else {
        let w = if c.warn_after_secs > idle {
            Some((c.warn_after_secs - idle) as u64)
        } else {
            None
        };
        let l = if !locked && c.lock_after_secs > idle && c.lock_after_secs > 0 {
            Some((c.lock_after_secs - idle) as u64)
        } else {
            None
        };
        let s = if c.suspend_after_secs > idle && c.suspend_after_secs > 0 {
            Some((c.suspend_after_secs - idle) as u64)
        } else {
            None
        };
        min_opt(min_opt(w, l), s)
    }
}

/// Seconds remaining until next phase transition (for UI countdown).
pub fn secs_until_next_phase(cfg: &IdleConfig, idle_secs: u64, already_locked: bool) -> (r: Option<
    u64,
>)
    ensures
        r == next_phase_secs(*cfg, idle_secs, already_locked),
{
    if cfg.inhibited {
        return None;
    }
    let w = if cfg.warn_after_secs > idle_secs {
        Some(cfg.warn_after_secs - idle_secs)
    } else {
        None
    };
    let l = if !already_locked && cfg.lock_after_secs > idle_secs && cfg.lock_after_secs > 0 {
        Some(cfg.lock_after_secs - idle_secs)
    } else {
        None
    };
    let s = if cfg.suspend_after_secs > idle_secs && cfg.suspend_after_secs > 0 {
        Some(cfg.suspend_after_secs - idle_secs)
    } else {
        None
    };
    min_opt_exec(min_opt_exec(w, l), s)
}

/// Order of the phases: active, warning, lock, suspend.
pub open spec fn phase_rank(p: IdlePhase) -> nat {
    match p {
        IdlePhase::Active => 0,
        IdlePhase::IdleWarn => 1,
        IdlePhase::ShouldLock => 2,
        IdlePhase::ShouldSuspend => 3,
    }
}

/// Phases only progress while inactivity goes on: more idle seconds never
/// give an earlier phase, whatever the thresholds.
pub proof fn law_idle_phase_monotone(c: IdleConfig, a: u64, b: u64, locked: bool, inhibited: bool)
    requires
        a <= b,
    ensures
        phase_rank(phase_of(c, a, locked, inhibited)) <= phase_rank(phase_of(c, b, locked, inhibited)),
{
}

/// Reasons after holding `r`: unchanged when already held, else appended.
pub open spec fn holding(s: Seq<InhibitReason>, r: InhibitReason) -> Seq<InhibitReason> {
    if s.contains(r) {
        s
    } else {
        s.push(r)
    }
}

/// No reason is held twice.
pub open spec fn reasons_distinct(s: Seq<InhibitReason>) -> bool {
    forall|i: int, j: int| 0 <= i < j < s.len() ==> s[i] != s[j]
}

proof fn lemma_without(s: Seq<InhibitReason>, x: InhibitReason)
    ensures
        !without(s, x).contains(x),
        forall|y: InhibitReason| y != x ==> (without(s, x).contains(y) <==> s.contains(y)),
        reasons_distinct(s) ==> reasons_distinct(without(s, x)),
    decreases s.len(),
{
    if s.len() > 0 {
        lemma_without(s.drop_last(), x);
        let w = without(s.drop_last(), x);
        assert forall|y: InhibitReason| y != x implies (without(s, x).contains(y) <==> s.contains(y)) by {
            if s.contains(y) {
                let k = choose|k: int| 0 <= k < s.len() && s[k] == y;
                if k < s.len() - 1 {
                    assert(s.drop_last()[k] == y);
                    assert(s.drop_last().contains(y));
                    assert(w.contains(y));
                    let i = choose|i: int| 0 <= i < w.len() && w[i] == y;
                    if s.last() != x {
                        assert(without(s, x)[i] == w[i]);
                    }
                } else if s.last() != x {
                    assert(without(s, x)[w.len() as int] == y);
                }
            }
            if without(s, x).contains(y) && s.last() != x {
                let k = choose|k: int| 0 <= k < without(s, x).len() && without(s, x)[k] == y;
                if k < w.len() {
                    assert(without(s, x)[k] == w[k]);
                    assert(w.contains(y));
                    assert(s.drop_last().contains(y));
                    let m = choose|m: int| 0 <= m < s.drop_last().len() && s.drop_last()[m] == y;
                    assert(s[m] == s.drop_last()[m]);
                } else {
                    assert(s[s.len() - 1] == y);
                }
            }
            if without(s, x).contains(y) && s.last() == x {
                assert(w.contains(y));
                assert(s.drop_last().contains(y));
                let m = choose|m: int| 0 <= m < s.drop_last().len() && s.drop_last()[m] == y;
                assert(s[m] == s.drop_last()[m]);
            }
        }
        if s.last() != x {
            assert(without(s, x) == w.push(s.last()));
            assert forall|k: int| 0 <= k < without(s, x).len() implies without(s, x)[k] != x by {
                if k < w.len() {
                    assert(without(s, x)[k] == w[k]);
                }
            }
        }
        if reasons_distinct(s) {
            assert(reasons_distinct(s.drop_last()));
            if s.last() != x {
                assert forall|i: int, j: int| 0 <= i < j < without(s, x).len() implies without(s, x)[i]
                    != without(s, x)[j] by {
                    if j == w.len() {
                        assert(without(s, x)[i] == w[i]);
                        assert(w.contains(w[i]));
                        assert(w[i] != x);
                        assert(s.drop_last().contains(w[i]));
                        let m = choose|m: int| 0 <= m < s.drop_last().len() && s.drop_last()[m] == w[i];
                        assert(s[m] == s.drop_last()[m]);
                        assert(s[m] != s[s.len() - 1]);
                    } else {
                        assert(without(s, x)[i] == w[i]);
                        assert(without(s, x)[j] == w[j]);
                    }
                }
            }
        }
    }
}

/// Holding then releasing a reason: afterwards it is not held, every other
/// reason is held exactly when it was before, and no reason is ever held
/// twice.
pub proof fn law_inhibit_hold_release(s: Seq<InhibitReason>, r: InhibitReason)
    requires
        reasons_distinct(s),
    ensures
        holding(s, r).contains(r),
        reasons_distinct(holding(s, r)),
        !without(holding(s, r), r).contains(r),
        forall|y: InhibitReason| y != r ==> (without(holding(s, r), r).contains(y) <==> s.contains(y)),
        reasons_distinct(without(holding(s, r), r)),
{
    let h = holding(s, r);
    if !s.contains(r) {
        assert(h[s.len() as int] == r);
        assert forall|i: int, j: int| 0 <= i < j < h.len() implies h[i] != h[j] by {
            if j == s.len() {
                assert(h[i] == s[i]);
            }
        }
        assert forall|y: InhibitReason| y != r implies (h.contains(y) <==> s.contains(y)) by {
            if h.contains(y) {
                let k = choose|k: int| 0 <= k < h.len() && h[k] == y;
                assert(k < s.len());
                assert(s[k] == y);
            }
            if s.contains(y) {
                let k = choose|k: int| 0 <= k < s.len() && s[k] == y;
                assert(h[k] == y);
            }
        }
    }
    lemma_without(h, r);
}

/// Whether the shell locks itself on an idle tick: it is not locked yet, a
/// lock password is configured, and the idle policy (with the shell's and
/// the desktop portal's inhibitors together) says the lock is due.
pub open spec fn auto_lock_due(
    c: IdleConfig,
    idle: u64,
    locked: bool,
    inhibited: bool,
    password_configured: bool,
) -> bool {
    !locked && password_configured && phase_of(c, idle, locked, inhibited) == IdlePhase::ShouldLock
}

/// Auto-lock decision after `idle_secs` without input: `shell_inhibit` and
/// the portal's `portal_reasons` both hold the idle timer off.
pub fn should_auto_lock(
    cfg: &IdleConfig,
    idle_secs: u64,
    locked: bool,
    shell_inhibit: &IdleInhibitState,
    portal_reasons: &[InhibitReason],
    password_configured: bool,
) -> (r: bool)
    ensures
        r == auto_lock_due(
            *cfg,
            idle_secs,
            locked,
            shell_inhibit@.len() > 0 || portal_reasons@.len() > 0,
            password_configured,
        ),
{
    if locked {
        return false;
    }
    let mut merged = IdleInhibitState::new();
    let held = shell_inhibit.reasons();
    let mut i: usize = 0;
    while i < held.len()
        invariant
            i <= held@.len(),
            held@ == shell_inhibit@,
            (merged@.len() > 0) == (i > 0),
        decreases held@.len() - i,
    {
        merged.add(held[i]);
        i = i + 1;
    }
    let mut j: usize = 0;
    while j < portal_reasons.len()
        invariant
            j <= portal_reasons@.len(),
            (merged@.len() > 0) == (shell_inhibit@.len() > 0 || j > 0),
        decreases portal_reasons@.len() - j,
    {
        merged.add(portal_reasons[j]);
        j = j + 1;
    }
    let phase = idle_phase(cfg, idle_secs, locked, &merged);
    let action = recommended_action(phase, locked);
    password_configured && action == IdleRecommendedAction::Lock
}

/// While the session is locked the idle policy never asks for another
/// lock, however long the idle time; unlocked, it asks for a lock only once
/// a lock delay is set and has passed, and nothing holds the idle timer off.
pub proof fn law_no_lock_request_while_locked(c: IdleConfig, idle: u64, inhibited: bool)
    ensures
        phase_of(c, idle, true, inhibited) != IdlePhase::ShouldLock,
        phase_of(c, idle, false, inhibited) == IdlePhase::ShouldLock ==> c.lock_after_secs > 0
            && idle >= c.lock_after_secs && !inhibited && !c.inhibited,
{
}

/// Anything that holds the idle timer off keeps the session active; left
/// alone, the session is asked to suspend once a suspend delay is set and
/// has passed, locked or not, and a phase other than active is reached only
/// once the matching delay has passed.
pub proof fn law_idle_phases_follow_delays(c: IdleConfig, idle: u64, locked: bool, inhibited: bool)
    ensures
        (inhibited || c.inhibited) ==> phase_of(c, idle, locked, inhibited) == IdlePhase::Active,
        !inhibited && !c.inhibited && c.suspend_after_secs > 0 && idle >= c.suspend_after_secs
            ==> phase_of(c, idle, locked, inhibited) == IdlePhase::ShouldSuspend,
        phase_of(c, idle, locked, inhibited) == IdlePhase::ShouldSuspend ==> c.suspend_after_secs
            > 0 && idle >= c.suspend_after_secs,
        phase_of(c, idle, locked, inhibited) == IdlePhase::IdleWarn ==> c.warn_after_secs > 0
            && idle >= c.warn_after_secs,
{
}

} // verus!
