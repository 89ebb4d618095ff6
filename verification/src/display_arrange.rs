//! Multi-monitor arrangement model: place logical outputs, pick a primary and
//! produce an apply plan for the compositor or the settings UI.
use vstd::prelude::*;

use crate::text::{
    lex_less, lex_less_exec, chars_eq, chars_to_string, dec, eq_str, lower, lower_chars, owned, push_chars, push_decimal,
    str_chars, trim, trim_chars,
};

verus! {

/// How multiple outputs relate to each other.
#[derive(Clone, Copy, Debug, Eq, PartialEq, Structural)]
pub enum ArrangeMode {
    /// Outputs placed left-to-right along x.
    ExtendRight,
    /// Outputs stacked top-to-bottom along y.
    ExtendDown,
    /// All outputs show the same content at (0,0).
    Mirror,
    /// Only the primary output is active; others disabled.
    PrimaryOnly,
}

impl Default for ArrangeMode {
    fn default() -> (r: Self)
        ensures
            r == ArrangeMode::ExtendRight,
    {
        ArrangeMode::ExtendRight
    }
}

/// Mode named by a (trimmed, lower-cased) mode word.
pub open spec fn mode_of_name(t: Seq<char>) -> Option<ArrangeMode> {
    if t == "extend"@ || t == "extend_right"@ || t == "side"@ || t == "side_by_side"@ || t
        == "sbs"@ {
        Some(ArrangeMode::ExtendRight)
    } else if t == "extend_down"@ || t == "stack"@ || t == "stacked"@ || t == "vertical"@ {
        Some(ArrangeMode::ExtendDown)
    } else if t == "mirror"@ || t == "clone"@ || t == "same"@ {
        Some(ArrangeMode::Mirror)
    } else if t == "primary"@ || t == "primary_only"@ || t == "single"@ {
        Some(ArrangeMode::PrimaryOnly)
    } else {
        None
    }
}

impl ArrangeMode {
    pub fn as_str(self) -> (r: &'static str)
        ensures
            r@ == (match self {
                ArrangeMode::ExtendRight => "extend_right"@,
                ArrangeMode::ExtendDown => "extend_down"@,
                ArrangeMode::Mirror => "mirror"@,
                ArrangeMode::PrimaryOnly => "primary_only"@,
            }),
    {
        match self {
            ArrangeMode::ExtendRight => "extend_right",
            ArrangeMode::ExtendDown => "extend_down",
            ArrangeMode::Mirror => "mirror",
            ArrangeMode::PrimaryOnly => "primary_only",
        }
    }

    /// Parse a mode word (trimmed, ASCII case ignored), with its aliases.
    pub fn parse(s: &str) -> (r: Option<Self>)
        ensures
            r == mode_of_name(lower(trim(s@))),
    {
        let raw = str_chars(s);
        let t0 = trim_chars(&raw);
        let t = lower_chars(&t0);
        if eq_str(&t, "extend") || eq_str(&t, "extend_right") || eq_str(&t, "side") || eq_str(
            &t,
            "side_by_side",
        ) || eq_str(&t, "sbs") {
            Some(ArrangeMode::ExtendRight)
        } else if eq_str(&t, "extend_down") || eq_str(&t, "stack") || eq_str(&t, "stacked")
            || eq_str(&t, "vertical") {
            Some(ArrangeMode::ExtendDown)
        } else if eq_str(&t, "mirror") || eq_str(&t, "clone") || eq_str(&t, "same") {
            Some(ArrangeMode::Mirror)
        } else if eq_str(&t, "primary") || eq_str(&t, "primary_only") || eq_str(&t, "single") {
            Some(ArrangeMode::PrimaryOnly)
        } else {
            None
        }
    }
}

/// One physical / logical output as known to Settings.
#[derive(Clone, Debug, Eq, PartialEq)]
pub struct DisplayOutput {
    pub name: String,
    pub width: u32,
    pub height: u32,
    /// Scale factor ×100 (100 = 1.0, 200 = 2.0).
    pub scale_percent: u32,
    pub enabled: bool,
    pub is_primary: bool,
    /// Refresh rate in mHz (60000 = 60 Hz).
    pub refresh_mhz: u32,
}

/// `x` clamped into `lo..=hi`.
pub open spec fn clamp_u32(x: u32, lo: u32, hi: u32) -> u32 {
    if x < lo {
        lo
    } else if x > hi {
        hi
    } else {
        x
    }
}

/// Logical extent of a physical extent at a scale (×100), rounded down, at
/// least 1, truncated to `u32` as the cast does.
pub open spec fn logical_extent(px: u32, scale: u32) -> u32 {
    let s: int = if scale >= 1 {
        scale as int
    } else {
        1
    };
    let v: int = px as int * 100 / s;
    (if v >= 1 {
        v
    } else {
        1
    }) as u32
}

fn logical_extent_exec(px: u32, scale: u32) -> (r: u32)
    ensures
        r == logical_extent(px, scale),
{
    let s: u64 = if scale >= 1 {
        scale as u64
    } else {
        1
    };
    let v: u64 = (px as u64) * 100 / s;
    let m: u64 = if v >= 1 {
        v
    } else {
        1
    };
    m as u32
}

/// Copy of an output, field for field.
pub fn clone_output(o: &DisplayOutput) -> (r: DisplayOutput)
    ensures
        r == *o,
{
    DisplayOutput {
        name: o.name.clone(),
        width: o.width,
        height: o.height,
        scale_percent: o.scale_percent,
        enabled: o.enabled,
        is_primary: o.is_primary,
        refresh_mhz: o.refresh_mhz,
    }
}

impl DisplayOutput {
    /// An enabled, non-primary output at 100% scale and 60 Hz.
    pub fn new(name: &str, width: u32, height: u32) -> (r: Self)
        ensures
            r.name@ == name@,
            r.width == width,
            r.height == height,
            r.scale_percent == 100,
            r.enabled,
            !r.is_primary,
            r.refresh_mhz == 60_000,
    {
        DisplayOutput {
            name: owned(name),
            width,
            height,
            scale_percent: 100,
            enabled: true,
            is_primary: false,
            refresh_mhz: 60_000,
        }
    }

    /// Same output with the scale clamped into 50..=400.
    pub fn with_scale(self, scale_percent: u32) -> (r: Self)
        ensures
            r == (DisplayOutput { scale_percent: clamp_u32(scale_percent, 50, 400), ..self }),
    {
        let mut s = self;
        s.scale_percent = if scale_percent < 50 {
            50
        } else if scale_percent > 400 {
            400
        } else {
            scale_percent
        };
        s
    }

    /// Same output with the refresh rate raised to at least 30 Hz.
    pub fn with_refresh_mhz(self, refresh_mhz: u32) -> (r: Self)
        ensures
            r == (DisplayOutput {
                refresh_mhz: if refresh_mhz < 30_000 {
                    30_000
                } else {
                    refresh_mhz
                },
                ..self
            }),
    {
        let mut s = self;
        s.refresh_mhz = if refresh_mhz < 30_000 {
            30_000
        } else {
            refresh_mhz
        };
        s
    }

    /// Logical pixels after scale (rounded down, at least 1).
    pub fn logical_size(&self) -> (r: (u32, u32))
        ensures
            r == (logical_extent(self.width, self.scale_percent), logical_extent(
                self.height,
                self.scale_percent,
            )),
    {
        (
            logical_extent_exec(self.width, self.scale_percent),
            logical_extent_exec(self.height, self.scale_percent),
        )
    }
}

/// Placed output with origin in the global layout space.
#[derive(Clone, Debug, Eq, PartialEq)]
pub struct PlacedOutput {
    pub output: DisplayOutput,
    pub x: i32,
    pub y: i32,
}

/// Full multi-monitor arrangement request.
#[derive(Clone, Debug, Eq, PartialEq)]
pub struct DisplayArrangement {
    pub mode: ArrangeMode,
    pub outputs: Vec<DisplayOutput>,
}

/// Concrete apply plan step (no side effects).
#[derive(Clone, Debug, Eq, PartialEq)]
pub enum DisplayApplyStep {
    SetPrimary { name: String },
    Place {
        name: String,
        x: i32,
        y: i32,
        width: u32,
        height: u32,
        scale_percent: u32,
        refresh_mhz: u32,
    },
    Disable { name: String },
    /// Env / compositor hint string.
    EmitLayoutEnv { key: String, value: String },
}

/// Index of the first enabled output, or `-1`.
pub open spec fn first_enabled(s: Seq<DisplayOutput>) -> int
    decreases s.len(),
{
    if s.len() == 0 {
        -1
    } else if s[0].enabled {
        0
    } else {
        let r = first_enabled(s.drop_first());
        if r < 0 {
            -1
        } else {
            r + 1
        }
    }
}

/// Index of the first enabled primary output, or `-1`.
pub open spec fn first_enabled_primary(s: Seq<DisplayOutput>) -> int
    decreases s.len(),
{
    if s.len() == 0 {
        -1
    } else if s[0].enabled && s[0].is_primary {
        0
    } else {
        let r = first_enabled_primary(s.drop_first());
        if r < 0 {
            -1
        } else {
            r + 1
        }
    }
}

/// Number of enabled primary outputs.
pub open spec fn enabled_primary_count(s: Seq<DisplayOutput>) -> nat
    decreases s.len(),
{
    if s.len() == 0 {
        0
    } else {
        enabled_primary_count(s.drop_last()) + if s.last().enabled && s.last().is_primary {
            1nat
        } else {
            0nat
        }
    }
}

/// Outputs after the primary is settled: with no enabled primary the first
/// enabled output becomes primary; with several, only the first enabled
/// primary stays primary; with exactly one, nothing changes.
pub open spec fn settle_primary(s: Seq<DisplayOutput>) -> Seq<DisplayOutput> {
    let c = enabled_primary_count(s);
    if c == 0 {
        let f = first_enabled(s);
        s.update(f, DisplayOutput { is_primary: true, ..s[f] })
    } else if c > 1 {
        let p = first_enabled_primary(s);
        Seq::new(
            s.len(),
            |i: int|
                if s[i].is_primary && i != p {
                    DisplayOutput { is_primary: false, ..s[i] }
                } else {
                    s[i]
                },
        )
    } else {
        s
    }
}

/// Index of the first output with a zero width or height, or `-1`.
pub open spec fn first_zero_sized(s: Seq<DisplayOutput>) -> int
    decreases s.len(),
{
    if s.len() == 0 {
        -1
    } else if s[0].width == 0 || s[0].height == 0 {
        0
    } else {
        let r = first_zero_sized(s.drop_first());
        if r < 0 {
            -1
        } else {
            r + 1
        }
    }
}

/// Outputs with their scale clamped into 50..=400.
pub open spec fn clamp_scales(s: Seq<DisplayOutput>) -> Seq<DisplayOutput> {
    Seq::new(
        s.len(),
        |i: int| DisplayOutput { scale_percent: clamp_u32(s[i].scale_percent, 50, 400), ..s[i] },
    )
}

/// Validated outputs: at least one output, at least one enabled, primary
/// settled, no zero-sized output (the first one found is reported), scales
/// clamped.
pub open spec fn normalized(s: Seq<DisplayOutput>) -> Result<Seq<DisplayOutput>, Seq<char>> {
    if s.len() == 0 {
        Err("no outputs"@)
    } else if first_enabled(s) < 0 {
        Err("no enabled outputs"@)
    } else {
        let t = settle_primary(s);
        let z = first_zero_sized(t);
        if z >= 0 {
            Err("output "@ + t[z].name@ + " has zero size"@)
        } else {
            Ok(clamp_scales(t))
        }
    }
}

pub proof fn lemma_first_enabled(s: Seq<DisplayOutput>)
    ensures
        -1 <= first_enabled(s) < s.len(),
        first_enabled(s) >= 0 ==> s[first_enabled(s)].enabled,
        first_enabled(s) >= 0 ==> forall|j: int| 0 <= j < first_enabled(s) ==> !s[j].enabled,
        first_enabled(s) < 0 ==> forall|j: int| 0 <= j < s.len() ==> !s[j].enabled,
    decreases s.len(),
{
    if s.len() > 0 && !s[0].enabled {
        lemma_first_enabled(s.drop_first());
        assert forall|j: int| 0 < j < s.len() implies s[j] == s.drop_first()[j - 1] by {}
    }
}

pub proof fn lemma_first_enabled_primary(s: Seq<DisplayOutput>)
    ensures
        -1 <= first_enabled_primary(s) < s.len(),
        first_enabled_primary(s) >= 0 ==> s[first_enabled_primary(s)].enabled
            && s[first_enabled_primary(s)].is_primary,
        first_enabled_primary(s) >= 0 ==> forall|j: int|
            0 <= j < first_enabled_primary(s) ==> !(s[j].enabled && s[j].is_primary),
        first_enabled_primary(s) < 0 ==> forall|j: int|
            0 <= j < s.len() ==> !(s[j].enabled && s[j].is_primary),
    decreases s.len(),
{
    if s.len() > 0 && !(s[0].enabled && s[0].is_primary) {
        lemma_first_enabled_primary(s.drop_first());
        assert forall|j: int| 0 < j < s.len() implies s[j] == s.drop_first()[j - 1] by {}
    }
}

pub proof fn lemma_first_zero_sized(s: Seq<DisplayOutput>)
    ensures
        -1 <= first_zero_sized(s) < s.len(),
        first_zero_sized(s) >= 0 ==> (s[first_zero_sized(s)].width == 0 || s[first_zero_sized(
            s,
        )].height == 0),
        first_zero_sized(s) >= 0 ==> forall|j: int|
            0 <= j < first_zero_sized(s) ==> !(s[j].width == 0 || s[j].height == 0),
        first_zero_sized(s) < 0 ==> forall|j: int|
            0 <= j < s.len() ==> !(s[j].width == 0 || s[j].height == 0),
    decreases s.len(),
{
    if s.len() > 0 && !(s[0].width == 0 || s[0].height == 0) {
        lemma_first_zero_sized(s.drop_first());
        assert forall|j: int| 0 < j < s.len() implies s[j] == s.drop_first()[j - 1] by {}
    }
}

fn string_of(s: &str) -> (r: String)
    ensures
        r@ == s@,
{
    owned(s)
}

/// Validate an arrangement: at least one enabled output, exactly one primary
/// among enabled outputs (auto-picking the first enabled), no zero-sized
/// output, scales clamped into 50..=400.
pub fn normalize_arrangement(arrangement: DisplayArrangement) -> (r: Result<
    DisplayArrangement,
    String,
>)
    ensures
        match r {
            Ok(a) => a.mode == arrangement.mode && normalized(arrangement.outputs@) == Ok::<
                Seq<DisplayOutput>,
                Seq<char>,
            >(a.outputs@),
            Err(e) => normalized(arrangement.outputs@) == Err::<Seq<DisplayOutput>, Seq<char>>(
                e@,
            ),
        },
{
    let ghost s0 = arrangement.outputs@;
    let ghost m0 = arrangement.mode;
    let mut arr = arrangement;
    if arr.outputs.len() == 0 {
        return Err(string_of("no outputs"));
    }
    proof {
        lemma_first_enabled(s0);
        lemma_first_enabled_primary(s0);
    }
    // Scan: first enabled index, number of enabled primaries.
    let mut first: Option<usize> = None;
    let mut count: usize = 0;
    let mut i: usize = 0;
    while i < arr.outputs.len()
        invariant
            arr.outputs@ == s0,
            i <= s0.len(),
            count as nat == enabled_primary_count(s0.take(i as int)),
            count <= i,
            match first {
                Some(f) => f as int == first_enabled(s0) && f < i,
                None => forall|j: int| 0 <= j < i ==> !s0[j].enabled,
            },
            -1 <= first_enabled(s0) < s0.len(),
            first_enabled(s0) >= 0 ==> s0[first_enabled(s0)].enabled,
            first_enabled(s0) >= 0 ==> forall|j: int| 0 <= j < first_enabled(s0) ==> !s0[j].enabled,
            first_enabled(s0) < 0 ==> forall|j: int| 0 <= j < s0.len() ==> !s0[j].enabled,
        decreases s0.len() - i,
    {
        let o = &arr.outputs[i];
        assert(s0.take(i + 1).drop_last() =~= s0.take(i as int));
        if o.enabled {
            if first.is_none() {
                proof {
                    let f = first_enabled(s0);
                    if f < 0 {
                        assert(!s0[i as int].enabled);
                    } else if f > i {
                        assert(!s0[i as int].enabled);
                    }
                }
                first = Some(i);
            }
            if o.is_primary {
                count = count + 1;
            }
        }
        i = i + 1;
    }
    assert(s0.take(s0.len() as int) =~= s0);
    let f = match first {
        Some(f) => f,
        None => {
            return Err(string_of("no enabled outputs"));
        },
    };
    if count == 0 {
        let o = &arr.outputs[f];
        let fixed = DisplayOutput { is_primary: true, ..clone_output(o) };
        let mut v: Vec<DisplayOutput> = Vec::new();
        std::mem::swap(&mut v, &mut arr.outputs);
        v.set(f, fixed);
        arr.outputs = v;
        assert(arr.outputs@ =~= settle_primary(s0));
    } else if count > 1 {
        let mut seen = false;
        let mut j: usize = 0;
        let ghost p = first_enabled_primary(s0);
        while j < arr.outputs.len()
            invariant
                arr.outputs@.len() == s0.len(),
                arr.mode == m0,
                j <= s0.len(),
                enabled_primary_count(s0) > 1,
                -1 <= p < s0.len(),
                p >= 0 ==> s0[p].enabled && s0[p].is_primary,
                p >= 0 ==> forall|q: int| 0 <= q < p ==> !(s0[q].enabled && s0[q].is_primary),
                p < 0 ==> forall|q: int| 0 <= q < s0.len() ==> !(s0[q].enabled && s0[q].is_primary),
                p == first_enabled_primary(s0),
                seen == (p >= 0 && p < j),
                forall|q: int|
                    0 <= q < j ==> #[trigger] arr.outputs@[q] == settle_primary(s0)[q],
                forall|q: int| j <= q < s0.len() ==> #[trigger] arr.outputs@[q] == s0[q],
            decreases s0.len() - j,
        {
            let o = &arr.outputs[j];
            assert(settle_primary(s0)[j as int] == (if s0[j as int].is_primary && j != p {
                DisplayOutput { is_primary: false, ..s0[j as int] }
            } else {
                s0[j as int]
            }));
            if o.is_primary {
                if seen || !o.enabled {
                    let fixed = DisplayOutput { is_primary: false, ..clone_output(o) };
                    let mut v: Vec<DisplayOutput> = Vec::new();
                    std::mem::swap(&mut v, &mut arr.outputs);
                    v.set(j, fixed);
                    arr.outputs = v;
                } else {
                    proof {
                        if p < 0 {
                            assert(!(s0[j as int].enabled && s0[j as int].is_primary));
                        } else if p > j {
                            assert(!(s0[j as int].enabled && s0[j as int].is_primary));
                        }
                    }
                    seen = true;
                }
            }
            j = j + 1;
        }
        assert(arr.outputs@ =~= settle_primary(s0));
    } else {
        assert(arr.outputs@ =~= settle_primary(s0));
    }
    let ghost t = settle_primary(s0);
    proof {
        lemma_first_zero_sized(t);
    }
    let mut k: usize = 0;
    while k < arr.outputs.len()
        invariant
            arr.outputs@.len() == t.len(),
            arr.mode == m0,
            s0 == arrangement.outputs@,
            m0 == arrangement.mode,
            t == settle_primary(s0),
            s0.len() > 0,
            first_enabled(s0) >= 0,
            k <= t.len(),
            forall|q: int| 0 <= q < k ==> !(t[q].width == 0 || t[q].height == 0),
            forall|q: int| 0 <= q < k ==> #[trigger] arr.outputs@[q] == clamp_scales(t)[q],
            forall|q: int| k <= q < t.len() ==> #[trigger] arr.outputs@[q] == t[q],
            -1 <= first_zero_sized(t) < t.len(),
            first_zero_sized(t) >= 0 ==> (t[first_zero_sized(t)].width == 0
                || t[first_zero_sized(t)].height == 0),
            first_zero_sized(t) >= 0 ==> forall|q: int|
                0 <= q < first_zero_sized(t) ==> !(t[q].width == 0 || t[q].height == 0),
            first_zero_sized(t) < 0 ==> forall|q: int|
                0 <= q < t.len() ==> !(t[q].width == 0 || t[q].height == 0),
        decreases t.len() - k,
    {
        let o = &arr.outputs[k];
        if o.width == 0 || o.height == 0 {
            proof {
                let z = first_zero_sized(t);
                if z < 0 || z > k {
                    assert(!(t[k as int].width == 0 || t[k as int].height == 0));
                }
            }
            let mut msg = str_chars("output ");
            let nm = str_chars(o.name.as_str());
            push_chars(&mut msg, &nm);
            let tail = str_chars(" has zero size");
            push_chars(&mut msg, &tail);
            let e = chars_to_string(&msg);
            assert(first_zero_sized(t) == k);
            assert(o.name == t[k as int].name);
            assert(e@ == "output "@ + t[k as int].name@ + " has zero size"@);
            assert(normalized(s0) == Err::<Seq<DisplayOutput>, Seq<char>>(e@));
            return Err(e);
        }
        let sc = o.scale_percent;
        let clamped: u32 = if sc < 50 {
            50
        } else if sc > 400 {
            400
        } else {
            sc
        };
        let fixed = DisplayOutput { scale_percent: clamped, ..clone_output(o) };
        let mut v: Vec<DisplayOutput> = Vec::new();
        std::mem::swap(&mut v, &mut arr.outputs);
        v.set(k, fixed);
        arr.outputs = v;
        k = k + 1;
    }
    assert(arr.outputs@ =~= clamp_scales(t));
    Ok(arr)
}

/// Copy of an arrangement, output for output.
pub fn clone_arrangement(a: &DisplayArrangement) -> (r: DisplayArrangement)
    ensures
        r.mode == a.mode,
        r.outputs@ == a.outputs@,
{
    let mut v: Vec<DisplayOutput> = Vec::new();
    let mut i: usize = 0;
    while i < a.outputs.len()
        invariant
            i <= a.outputs@.len(),
            v@ == a.outputs@.take(i as int),
        decreases a.outputs@.len() - i,
    {
        v.push(clone_output(&a.outputs[i]));
        i = i + 1;
        assert(v@ =~= a.outputs@.take(i as int));
    }
    assert(v@ =~= a.outputs@);
    DisplayArrangement { mode: a.mode, outputs: v }
}

/// `a` sorts after `b`: primary outputs first, then by name.
pub open spec fn sorts_after(a: DisplayOutput, b: DisplayOutput) -> bool {
    (!a.is_primary && b.is_primary) || (a.is_primary == b.is_primary && lex_less(b.name@, a.name@))
}

/// `x` inserted before the first element that sorts after it.
pub open spec fn insert_in_order(s: Seq<DisplayOutput>, x: DisplayOutput) -> Seq<DisplayOutput>
    decreases s.len(),
{
    if s.len() == 0 {
        seq![x]
    } else if sorts_after(s[0], x) {
        seq![x] + s
    } else {
        seq![s[0]] + insert_in_order(s.drop_first(), x)
    }
}

/// Stable sort of outputs: primary first, then by name, ties in input order.
pub open spec fn sort_outputs(s: Seq<DisplayOutput>) -> Seq<DisplayOutput>
    decreases s.len(),
{
    if s.len() == 0 {
        Seq::empty()
    } else {
        insert_in_order(sort_outputs(s.drop_last()), s.last())
    }
}

proof fn lemma_insert_at(s: Seq<DisplayOutput>, x: DisplayOutput, j: int)
    requires
        0 <= j <= s.len(),
        forall|q: int| 0 <= q < j ==> !sorts_after(s[q], x),
        j < s.len() ==> sorts_after(s[j], x),
    ensures
        insert_in_order(s, x) == s.take(j).push(x) + s.skip(j),
    decreases s.len(),
{
    if s.len() == 0 {
        assert(s.take(j).push(x) + s.skip(j) =~= seq![x]);
    } else if j == 0 {
        assert(s.take(0).push(x) + s.skip(0) =~= seq![x] + s);
    } else {
        assert forall|q: int| 0 <= q < j - 1 implies !sorts_after(s.drop_first()[q], x) by {
            assert(s.drop_first()[q] == s[q + 1]);
        }
        lemma_insert_at(s.drop_first(), x, j - 1);
        assert(seq![s[0]] + (s.drop_first().take(j - 1).push(x) + s.drop_first().skip(j - 1))
            =~= s.take(j).push(x) + s.skip(j));
    }
}

fn insertion_point(v: &Vec<DisplayOutput>, x: &DisplayOutput) -> (j: usize)
    ensures
        j <= v@.len(),
        forall|q: int| 0 <= q < j ==> !sorts_after(v@[q], *x),
        j < v@.len() ==> sorts_after(v@[j as int], *x),
{
    let xn = str_chars(x.name.as_str());
    let mut j: usize = 0;
    while j < v.len()
        invariant
            j <= v@.len(),
            xn@ == x.name@,
            forall|q: int| 0 <= q < j ==> !sorts_after(v@[q], *x),
        decreases v@.len() - j,
    {
        let o = &v[j];
        let on = str_chars(o.name.as_str());
        if (!o.is_primary && x.is_primary) || (o.is_primary == x.is_primary && lex_less_exec(
            &xn,
            &on,
        )) {
            return j;
        }
        j = j + 1;
    }
    j
}

fn insert_output(v: &mut Vec<DisplayOutput>, x: DisplayOutput)
    ensures
        final(v)@ == insert_in_order(old(v)@, x),
{
    let j = insertion_point(v, &x);
    proof {
        lemma_insert_at(v@, x, j as int);
    }
    let ghost before = v@;
    v.insert(j, x);
    assert(v@ =~= before.take(j as int).push(x) + before.skip(j as int));
}

/// The enabled outputs, in order.
pub open spec fn enabled_only(s: Seq<DisplayOutput>) -> Seq<DisplayOutput>
    decreases s.len(),
{
    if s.len() == 0 {
        Seq::empty()
    } else if s.last().enabled {
        enabled_only(s.drop_last()).push(s.last())
    } else {
        enabled_only(s.drop_last())
    }
}

/// Enabled outputs, primary first, then by name.
fn sorted_enabled(outs: &Vec<DisplayOutput>) -> (r: Vec<DisplayOutput>)
    ensures
        r@ == sort_outputs(enabled_only(outs@)),
{
    let mut en: Vec<DisplayOutput> = Vec::new();
    let mut i: usize = 0;
    assert(outs@.take(0) =~= Seq::<DisplayOutput>::empty());
    while i < outs.len()
        invariant
            i <= outs@.len(),
            en@ == enabled_only(outs@.take(i as int)),
        decreases outs@.len() - i,
    {
        assert(outs@.take(i + 1).drop_last() =~= outs@.take(i as int));
        if outs[i].enabled {
            en.push(clone_output(&outs[i]));
        }
        i = i + 1;
    }
    assert(outs@.take(outs@.len() as int) =~= outs@);
    let mut sorted: Vec<DisplayOutput> = Vec::new();
    let mut k: usize = 0;
    assert(en@.take(0) =~= Seq::<DisplayOutput>::empty());
    while k < en.len()
        invariant
            k <= en@.len(),
            sorted@ == sort_outputs(en@.take(k as int)),
        decreases en@.len() - k,
    {
        assert(en@.take(k + 1).drop_last() =~= en@.take(k as int));
        insert_output(&mut sorted, clone_output(&en[k]));
        k = k + 1;
    }
    assert(en@.take(en@.len() as int) =~= en@);
    sorted
}

/// `a + b` saturated to the `i32` range.
pub open spec fn sat_add(a: i32, b: i32) -> i32 {
    let s = a as int + b as int;
    if s > i32::MAX {
        i32::MAX
    } else if s < i32::MIN {
        i32::MIN
    } else {
        s as i32
    }
}

fn sat_add_exec(a: i32, b: i32) -> (r: i32)
    ensures
        r == sat_add(a, b),
{
    let s: i64 = a as i64 + b as i64;
    if s > 0x7fff_ffff {
        0x7fff_ffff
    } else if s < -0x8000_0000 {
        -0x8000_0000
    } else {
        s as i32
    }
}

/// Outputs laid out left to right from `x`, each advancing by its logical width.
pub open spec fn extend_right(s: Seq<DisplayOutput>, x: i32) -> Seq<PlacedOutput>
    decreases s.len(),
{
    if s.len() == 0 {
        Seq::empty()
    } else {
        seq![PlacedOutput { output: s[0], x, y: 0 }] + extend_right(
            s.drop_first(),
            sat_add(x, logical_extent(s[0].width, s[0].scale_percent) as i32),
        )
    }
}

/// Outputs stacked top to bottom from `y`, each advancing by its logical height.
pub open spec fn extend_down(s: Seq<DisplayOutput>, y: i32) -> Seq<PlacedOutput>
    decreases s.len(),
{
    if s.len() == 0 {
        Seq::empty()
    } else {
        seq![PlacedOutput { output: s[0], x: 0, y }] + extend_down(
            s.drop_first(),
            sat_add(y, logical_extent(s[0].height, s[0].scale_percent) as i32),
        )
    }
}

/// Index of the first primary output, or `-1`.
pub open spec fn first_primary(s: Seq<DisplayOutput>) -> int
    decreases s.len(),
{
    if s.len() == 0 {
        -1
    } else if s[0].is_primary {
        0
    } else {
        let r = first_primary(s.drop_first());
        if r < 0 {
            -1
        } else {
            r + 1
        }
    }
}

proof fn lemma_first_primary(s: Seq<DisplayOutput>)
    ensures
        -1 <= first_primary(s) < s.len(),
        first_primary(s) >= 0 ==> s[first_primary(s)].is_primary,
        first_primary(s) >= 0 ==> forall|j: int| 0 <= j < first_primary(s) ==> !s[j].is_primary,
        first_primary(s) < 0 ==> forall|j: int| 0 <= j < s.len() ==> !s[j].is_primary,
    decreases s.len(),
{
    if s.len() > 0 && !s[0].is_primary {
        lemma_first_primary(s.drop_first());
        assert forall|j: int| 0 < j < s.len() implies s[j] == s.drop_first()[j - 1] by {}
    }
}

fn find_primary(s: &Vec<DisplayOutput>) -> (r: Option<usize>)
    ensures
        match r {
            Some(i) => i as int == first_primary(s@) && i < s@.len(),
            None => first_primary(s@) == -1,
        },
{
    proof {
        lemma_first_primary(s@);
    }
    let mut i: usize = 0;
    while i < s.len()
        invariant
            i <= s@.len(),
            forall|j: int| 0 <= j < i ==> !s@[j].is_primary,
            -1 <= first_primary(s@) < s@.len(),
            first_primary(s@) >= 0 ==> s@[first_primary(s@)].is_primary,
            first_primary(s@) >= 0 ==> forall|j: int|
                0 <= j < first_primary(s@) ==> !s@[j].is_primary,
            first_primary(s@) < 0 ==> forall|j: int| 0 <= j < s@.len() ==> !s@[j].is_primary,
        decreases s@.len() - i,
    {
        if s[i].is_primary {
            proof {
                let p = first_primary(s@);
                if p < 0 || p > i {
                    assert(!s@[i as int].is_primary);
                } else if p < i {
                    assert(!s@[p].is_primary);
                }
            }
            return Some(i);
        }
        i = i + 1;
    }
    None
}

/// Placement of normalized, enabled, sorted outputs under `mode`.
pub open spec fn place_sorted(mode: ArrangeMode, s: Seq<DisplayOutput>) -> Result<
    Seq<PlacedOutput>,
    Seq<char>,
> {
    if s.len() == 0 {
        Err("no enabled outputs"@)
    } else {
        match mode {
            ArrangeMode::PrimaryOnly => {
                let p = first_primary(s);
                if p < 0 {
                    Err("no primary"@)
                } else {
                    Ok(seq![PlacedOutput { output: s[p], x: 0, y: 0 }])
                }
            },
            ArrangeMode::Mirror => Ok(
                Seq::new(s.len(), |i: int| PlacedOutput { output: s[i], x: 0, y: 0 }),
            ),
            ArrangeMode::ExtendRight => Ok(extend_right(s, 0)),
            ArrangeMode::ExtendDown => Ok(extend_down(s, 0)),
        }
    }
}

/// Placement of an arrangement: normalize, keep enabled outputs (primary
/// first, then by name), then lay them out by mode.
pub open spec fn placement(mode: ArrangeMode, outs: Seq<DisplayOutput>) -> Result<
    Seq<PlacedOutput>,
    Seq<char>,
> {
    match normalized(outs) {
        Ok(n) => place_sorted(mode, sort_outputs(enabled_only(n))),
        Err(e) => Err(e),
    }
}

/// Place outputs according to the arrangement's mode.
pub fn place_outputs(arr: &DisplayArrangement) -> (r: Result<Vec<PlacedOutput>, String>)
    ensures
        match r {
            Ok(v) => placement(arr.mode, arr.outputs@) == Ok::<Seq<PlacedOutput>, Seq<char>>(
                v@,
            ),
            Err(e) => placement(arr.mode, arr.outputs@) == Err::<Seq<PlacedOutput>, Seq<char>>(
                e@,
            ),
        },
{
    let n = match normalize_arrangement(clone_arrangement(arr)) {
        Ok(n) => n,
        Err(e) => {
            return Err(e);
        },
    };
    let sorted = sorted_enabled(&n.outputs);
    if sorted.len() == 0 {
        return Err(string_of("no enabled outputs"));
    }
    match n.mode {
        ArrangeMode::PrimaryOnly => {
            match find_primary(&sorted) {
                Some(i) => {
                    let mut out: Vec<PlacedOutput> = Vec::new();
                    out.push(PlacedOutput { output: clone_output(&sorted[i]), x: 0, y: 0 });
                    assert(out@ =~= seq![PlacedOutput { output: sorted@[i as int], x: 0, y: 0 }]);
                    Ok(out)
                },
                None => Err(string_of("no primary")),
            }
        },
        ArrangeMode::Mirror => {
            let mut out: Vec<PlacedOutput> = Vec::new();
            let mut i: usize = 0;
            while i < sorted.len()
                invariant
                    i <= sorted@.len(),
                    out@ =~= Seq::new(
                        i as nat,
                        |q: int| PlacedOutput { output: sorted@[q], x: 0, y: 0 },
                    ),
                decreases sorted@.len() - i,
            {
                out.push(PlacedOutput { output: clone_output(&sorted[i]), x: 0, y: 0 });
                i = i + 1;
            }
            Ok(out)
        },
        ArrangeMode::ExtendRight => {
            let mut out: Vec<PlacedOutput> = Vec::new();
            let mut x: i32 = 0;
            let mut i: usize = 0;
            assert(sorted@.skip(0) =~= sorted@);
            while i < sorted.len()
                invariant
                    i <= sorted@.len(),
                    extend_right(sorted@, 0) == out@ + extend_right(sorted@.skip(i as int), x),
                decreases sorted@.len() - i,
            {
                let o = &sorted[i];
                let (lw, _) = o.logical_size();
                let ghost rest = sorted@.skip(i as int);
                out.push(PlacedOutput { output: clone_output(o), x, y: 0 });
                assert(rest.drop_first() =~= sorted@.skip(i + 1));
                x = sat_add_exec(x, #[verifier::truncate] (lw as i32));
                i = i + 1;
                assert(extend_right(sorted@, 0) =~= out@ + extend_right(
                    sorted@.skip(i as int),
                    x,
                ));
            }
            assert(sorted@.skip(sorted@.len() as int) =~= Seq::<DisplayOutput>::empty());
            assert(out@ + extend_right(sorted@.skip(i as int), x) =~= out@);
            Ok(out)
        },
        ArrangeMode::ExtendDown => {
            let mut out: Vec<PlacedOutput> = Vec::new();
            let mut y: i32 = 0;
            let mut i: usize = 0;
            assert(sorted@.skip(0) =~= sorted@);
            while i < sorted.len()
                invariant
                    i <= sorted@.len(),
                    extend_down(sorted@, 0) == out@ + extend_down(sorted@.skip(i as int), y),
                decreases sorted@.len() - i,
            {
                let o = &sorted[i];
                let (_, lh) = o.logical_size();
                let ghost rest = sorted@.skip(i as int);
                out.push(PlacedOutput { output: clone_output(o), x: 0, y });
                assert(rest.drop_first() =~= sorted@.skip(i + 1));
                y = sat_add_exec(y, #[verifier::truncate] (lh as i32));
                i = i + 1;
                assert(extend_down(sorted@, 0) =~= out@ + extend_down(sorted@.skip(i as int), y));
            }
            assert(sorted@.skip(sorted@.len() as int) =~= Seq::<DisplayOutput>::empty());
            assert(out@ + extend_down(sorted@.skip(i as int), y) =~= out@);
            Ok(out)
        },
    }
}

/// Right and bottom edges reached by placed outputs (each edge saturating).
pub open spec fn far_edges(s: Seq<PlacedOutput>) -> (i32, i32)
    decreases s.len(),
{
    if s.len() == 0 {
        (0, 0)
    } else {
        let prev = far_edges(s.drop_last());
        let p = s.last();
        let rx = sat_add(p.x, logical_extent(p.output.width, p.output.scale_percent) as i32);
        let ry = sat_add(p.y, logical_extent(p.output.height, p.output.scale_percent) as i32);
        (if rx > prev.0 {
            rx
        } else {
            prev.0
        }, if ry > prev.1 {
            ry
        } else {
            prev.1
        })
    }
}

/// Bounding box of placed outputs in logical pixels (from the origin; never negative).
pub open spec fn bounds_of(s: Seq<PlacedOutput>) -> (u32, u32) {
    let e = far_edges(s);
    ((if e.0 > 0 {
        e.0
    } else {
        0
    }) as u32, (if e.1 > 0 {
        e.1
    } else {
        0
    }) as u32)
}

/// Bounding box of placed outputs (logical pixels).
pub fn arrangement_bounds(placed: &[PlacedOutput]) -> (r: (u32, u32))
    ensures
        r == bounds_of(placed@),
{
    let mut max_x: i32 = 0;
    let mut max_y: i32 = 0;
    let mut i: usize = 0;
    assert(placed@.take(0) =~= Seq::<PlacedOutput>::empty());
    while i < placed.len()
        invariant
            i <= placed@.len(),
            (max_x, max_y) == far_edges(placed@.take(i as int)),
        decreases placed@.len() - i,
    {
        let p = &placed[i];
        let (lw, lh) = p.output.logical_size();
        let rx = sat_add_exec(p.x, #[verifier::truncate] (lw as i32));
        let ry = sat_add_exec(p.y, #[verifier::truncate] (lh as i32));
        assert(placed@.take(i + 1).drop_last() =~= placed@.take(i as int));
        if rx > max_x {
            max_x = rx;
        }
        if ry > max_y {
            max_y = ry;
        }
        i = i + 1;
    }
    assert(placed@.take(placed@.len() as int) =~= placed@);
    let bx: u32 = if max_x > 0 {
        max_x as u32
    } else {
        0
    };
    let by: u32 = if max_y > 0 {
        max_y as u32
    } else {
        0
    };
    (bx, by)
}

/// A plan step, with its texts as character sequences.
pub ghost enum StepModel {
    SetPrimary(Seq<char>),
    Place(Seq<char>, i32, i32, u32, u32, u32, u32),
    Disable(Seq<char>),
    EmitLayoutEnv(Seq<char>, Seq<char>),
}

pub open spec fn step_model(s: DisplayApplyStep) -> StepModel {
    match s {
        DisplayApplyStep::SetPrimary { name } => StepModel::SetPrimary(name@),
        DisplayApplyStep::Place { name, x, y, width, height, scale_percent, refresh_mhz } =>
            StepModel::Place(name@, x, y, width, height, scale_percent, refresh_mhz),
        DisplayApplyStep::Disable { name } => StepModel::Disable(name@),
        DisplayApplyStep::EmitLayoutEnv { key, value } => StepModel::EmitLayoutEnv(key@, value@),
    }
}

pub open spec fn steps_model(v: Seq<DisplayApplyStep>) -> Seq<StepModel> {
    Seq::new(v.len(), |i: int| step_model(v[i]))
}

/// Concrete apply plan (no side effects).
#[derive(Clone, Debug, Eq, PartialEq)]
pub struct DisplayApplyPlan {
    pub steps: Vec<DisplayApplyStep>,
    pub placed: Vec<PlacedOutput>,
    pub logical_width: u32,
    pub logical_height: u32,
}

/// Value of the first `SLOPOS_OUTPUTS_LAYOUT` emit step.
pub open spec fn layout_of_steps(s: Seq<StepModel>) -> Option<Seq<char>>
    decreases s.len(),
{
    if s.len() == 0 {
        None
    } else {
        match s[0] {
            StepModel::EmitLayoutEnv(k, v) => if k == "SLOPOS_OUTPUTS_LAYOUT"@ {
                Some(v)
            } else {
                layout_of_steps(s.drop_first())
            },
            _ => layout_of_steps(s.drop_first()),
        }
    }
}

impl DisplayApplyPlan {
    /// The layout payload for the compositor: the value of the plan's
    /// `SLOPOS_OUTPUTS_LAYOUT` step.
    pub fn layout_value(&self) -> (r: Option<&str>)
        ensures
            match r {
                Some(v) => layout_of_steps(steps_model(self.steps@)) == Some(v@),
                None => layout_of_steps(steps_model(self.steps@)) is None,
            },
    {
        let ghost m = steps_model(self.steps@);
        let mut i: usize = 0;
        assert(m.skip(0) =~= m);
        while i < self.steps.len()
            invariant
                m == steps_model(self.steps@),
                i <= self.steps@.len(),
                layout_of_steps(m) == layout_of_steps(m.skip(i as int)),
            decreases self.steps@.len() - i,
        {
            assert(m.skip(i as int).drop_first() =~= m.skip(i + 1));
            assert(m.skip(i as int)[0] == step_model(self.steps@[i as int]));
            match &self.steps[i] {
                DisplayApplyStep::EmitLayoutEnv { key, value } => {
                    if str_eq_string(key, "SLOPOS_OUTPUTS_LAYOUT") {
                        return Some(value.as_str());
                    }
                },
                _ => {},
            }
            i = i + 1;
        }
        assert(m.skip(i as int) =~= Seq::<StepModel>::empty());
        None
    }
}

/// The environment assignments a plan carries: its `EmitLayoutEnv` steps'
/// keys and values, in plan order.
pub open spec fn env_pairs_of(s: Seq<StepModel>) -> Seq<(Seq<char>, Seq<char>)>
    decreases s.len(),
{
    if s.len() == 0 {
        Seq::empty()
    } else {
        let rest = env_pairs_of(s.drop_last());
        match s.last() {
            StepModel::EmitLayoutEnv(k, v) => rest.push((k, v)),
            _ => rest,
        }
    }
}

/// Texts of key/value string pairs.
pub open spec fn pair_views(v: Seq<(String, String)>) -> Seq<(Seq<char>, Seq<char>)> {
    Seq::new(v.len(), |i: int| (v[i].0@, v[i].1@))
}

impl DisplayApplyPlan {
    /// The environment variables to set for the plan: each
    /// `EmitLayoutEnv` step's key and value, in plan order.
    pub fn env_assignments(&self) -> (r: Vec<(String, String)>)
        ensures
            pair_views(r@) == env_pairs_of(steps_model(self.steps@)),
    {
        let ghost m = steps_model(self.steps@);
        let mut out: Vec<(String, String)> = Vec::new();
        let mut i: usize = 0;
        assert(m.take(0) =~= Seq::<StepModel>::empty());
        while i < self.steps.len()
            invariant
                m == steps_model(self.steps@),
                i <= self.steps@.len(),
                pair_views(out@) == env_pairs_of(m.take(i as int)),
            decreases self.steps@.len() - i,
        {
            assert(m.take(i + 1).drop_last() =~= m.take(i as int));
            assert(m.take(i + 1).last() == step_model(self.steps@[i as int]));
            match &self.steps[i] {
                DisplayApplyStep::EmitLayoutEnv { key, value } => {
                    let ghost before = pair_views(out@);
                    out.push((key.clone(), value.clone()));
                    assert(pair_views(out@) =~= before.push((key@, value@)));
                },
                _ => {},
            }
            i = i + 1;
        }
        assert(m.take(i as int) =~= m);
        out
    }
}

fn str_eq_string(a: &String, b: &str) -> (r: bool)
    ensures
        r == (a@ == b@),
{
    let av = str_chars(a.as_str());
    eq_str(&av, b)
}

/// Signed decimal text.
pub open spec fn dec_i32(x: i32) -> Seq<char> {
    if x < 0 {
        "-"@ + dec((-(x as int)) as nat)
    } else {
        dec(x as nat)
    }
}

fn push_signed_decimal(out: &mut Vec<char>, x: i32)
    ensures
        final(out)@ == old(out)@ + dec_i32(x),
{
    proof {
        reveal_strlit("-");
    }
    if x < 0 {
        out.push('-');
        let m: i64 = -(x as i64);
        push_decimal(out, m as u64);
        assert(final(out)@ =~= old(out)@ + dec_i32(x));
    } else {
        push_decimal(out, x as u64);
    }
}

/// Layout entry of one placed output: `name:WxH@X,Y:sSCALE`.
pub open spec fn layout_entry(p: PlacedOutput) -> Seq<char> {
    p.output.name@ + ":"@ + dec(p.output.width as nat) + "x"@ + dec(p.output.height as nat) + "@"@
        + dec_i32(p.x) + ","@ + dec_i32(p.y) + ":s"@ + dec(p.output.scale_percent as nat)
}

/// Layout entries of placed outputs joined by `;`.
pub open spec fn layout_text(s: Seq<PlacedOutput>) -> Seq<char>
    decreases s.len(),
{
    if s.len() == 0 {
        Seq::empty()
    } else if s.len() == 1 {
        layout_entry(s[0])
    } else {
        layout_text(s.drop_last()) + ";"@ + layout_entry(s.last())
    }
}

fn push_layout_entry(out: &mut Vec<char>, p: &PlacedOutput)
    ensures
        final(out)@ == old(out)@ + layout_entry(*p),
{
    proof {
        reveal_strlit(":");
        reveal_strlit("x");
        reveal_strlit("@");
        reveal_strlit(",");
        reveal_strlit(":s");
    }
    let nm = str_chars(p.output.name.as_str());
    push_chars(out, &nm);
    out.push(':');
    push_decimal(out, p.output.width as u64);
    out.push('x');
    push_decimal(out, p.output.height as u64);
    out.push('@');
    push_signed_decimal(out, p.x);
    out.push(',');
    push_signed_decimal(out, p.y);
    out.push(':');
    out.push('s');
    push_decimal(out, p.output.scale_percent as u64);
    assert(final(out)@ =~= old(out)@ + layout_entry(*p));
}

fn layout_string(placed: &Vec<PlacedOutput>) -> (r: String)
    ensures
        r@ == layout_text(placed@),
{
    proof {
        reveal_strlit(";");
    }
    let mut out: Vec<char> = Vec::new();
    let mut i: usize = 0;
    assert(placed@.take(0) =~= Seq::<PlacedOutput>::empty());
    while i < placed.len()
        invariant
            i <= placed@.len(),
            out@ == layout_text(placed@.take(i as int)),
        decreases placed@.len() - i,
    {
        let ghost before = out@;
        if i > 0 {
            out.push(';');
        }
        push_layout_entry(&mut out, &placed[i]);
        assert(placed@.take(i + 1).drop_last() =~= placed@.take(i as int));
        assert(placed@.take(i + 1).last() == placed@[i as int]);
        if i == 0 {
            assert(placed@.take(1)[0] == placed@[0]);
            assert(out@ =~= layout_text(placed@.take(1)));
        } else {
            assert(";"@ =~= seq![';']) by {
                reveal_strlit(";");
            }
            assert(layout_text(placed@.take(i + 1)) == layout_text(placed@.take(i as int)) + ";"@
                + layout_entry(placed@[i as int]));
            assert(out@ =~= layout_text(placed@.take(i + 1)));
        }
        i = i + 1;
    }
    assert(placed@.take(placed@.len() as int) =~= placed@);
    chars_to_string(&out)
}

/// Some placed output carries this name.
pub open spec fn placed_has_name(p: Seq<PlacedOutput>, name: Seq<char>) -> bool {
    exists|j: int| 0 <= j < p.len() && #[trigger] p[j].output.name@ == name
}

fn placed_contains_name(p: &Vec<PlacedOutput>, name: &String) -> (r: bool)
    ensures
        r == placed_has_name(p@, name@),
{
    let nv = str_chars(name.as_str());
    let mut i: usize = 0;
    while i < p.len()
        invariant
            i <= p@.len(),
            nv@ == name@,
            forall|j: int| 0 <= j < i ==> p@[j].output.name@ != name@,
        decreases p@.len() - i,
    {
        let pv = str_chars(p[i].output.name.as_str());
        if chars_eq(&pv, &nv) {
            return true;
        }
        i = i + 1;
    }
    false
}

/// `Disable` steps for normalized outputs that were not placed, in order.
pub open spec fn disable_steps(n: Seq<DisplayOutput>, p: Seq<PlacedOutput>) -> Seq<StepModel>
    decreases n.len(),
{
    if n.len() == 0 {
        Seq::empty()
    } else if placed_has_name(p, n.last().name@) {
        disable_steps(n.drop_last(), p)
    } else {
        disable_steps(n.drop_last(), p).push(StepModel::Disable(n.last().name@))
    }
}

/// Index of the first placed primary output, or `-1`.
pub open spec fn first_placed_primary(p: Seq<PlacedOutput>) -> int
    decreases p.len(),
{
    if p.len() == 0 {
        -1
    } else if p[0].output.is_primary {
        0
    } else {
        let r = first_placed_primary(p.drop_first());
        if r < 0 {
            -1
        } else {
            r + 1
        }
    }
}

proof fn lemma_first_placed_primary(s: Seq<PlacedOutput>)
    ensures
        -1 <= first_placed_primary(s) < s.len(),
        first_placed_primary(s) >= 0 ==> s[first_placed_primary(s)].output.is_primary,
        first_placed_primary(s) >= 0 ==> forall|j: int|
            0 <= j < first_placed_primary(s) ==> !s[j].output.is_primary,
        first_placed_primary(s) < 0 ==> forall|j: int| 0 <= j < s.len() ==> !s[j].output.is_primary,
    decreases s.len(),
{
    if s.len() > 0 && !s[0].output.is_primary {
        lemma_first_placed_primary(s.drop_first());
        assert forall|j: int| 0 < j < s.len() implies s[j] == s.drop_first()[j - 1] by {}
    }
}

/// `Place` step of a placed output.
pub open spec fn place_step(p: PlacedOutput) -> StepModel {
    StepModel::Place(
        p.output.name@,
        p.x,
        p.y,
        p.output.width,
        p.output.height,
        p.output.scale_percent,
        p.output.refresh_mhz,
    )
}

/// Steps of a plan: set the first placed primary, place every placed output,
/// disable every normalized output that was not placed, then emit the layout.
pub open spec fn plan_steps(n: Seq<DisplayOutput>, p: Seq<PlacedOutput>) -> Seq<StepModel> {
    let f = first_placed_primary(p);
    let head = if f >= 0 {
        seq![StepModel::SetPrimary(p[f].output.name@)]
    } else {
        Seq::empty()
    };
    head + Seq::new(p.len(), |i: int| place_step(p[i])) + disable_steps(n, p) + seq![
        StepModel::EmitLayoutEnv("SLOPOS_OUTPUTS_LAYOUT"@, layout_text(p)),
    ]
}

/// Full plan of an arrangement: steps, placed outputs and logical bounds.
pub open spec fn display_plan(mode: ArrangeMode, outs: Seq<DisplayOutput>) -> Result<
    (Seq<StepModel>, Seq<PlacedOutput>, u32, u32),
    Seq<char>,
> {
    match normalized(outs) {
        Err(e) => Err(e),
        Ok(n) => match placement(mode, n) {
            Err(e) => Err(e),
            Ok(p) => Ok((plan_steps(n, p), p, bounds_of(p).0, bounds_of(p).1)),
        },
    }
}

fn find_placed_primary(s: &Vec<PlacedOutput>) -> (r: Option<usize>)
    ensures
        match r {
            Some(i) => i as int == first_placed_primary(s@) && i < s@.len(),
            None => first_placed_primary(s@) == -1,
        },
{
    proof {
        lemma_first_placed_primary(s@);
    }
    let mut i: usize = 0;
    while i < s.len()
        invariant
            i <= s@.len(),
            forall|j: int| 0 <= j < i ==> !s@[j].output.is_primary,
            -1 <= first_placed_primary(s@) < s@.len(),
            first_placed_primary(s@) >= 0 ==> s@[first_placed_primary(s@)].output.is_primary,
            first_placed_primary(s@) >= 0 ==> forall|j: int|
                0 <= j < first_placed_primary(s@) ==> !s@[j].output.is_primary,
            first_placed_primary(s@) < 0 ==> forall|j: int|
                0 <= j < s@.len() ==> !s@[j].output.is_primary,
        decreases s@.len() - i,
    {
        if s[i].output.is_primary {
            proof {
                let p = first_placed_primary(s@);
                if p < 0 || p > i {
                    assert(!s@[i as int].output.is_primary);
                } else if p < i {
                    assert(!s@[p].output.is_primary);
                }
            }
            return Some(i);
        }
        i = i + 1;
    }
    None
}

/// Build a full apply plan from an arrangement.
pub fn plan_display_apply(arr: &DisplayArrangement) -> (r: Result<DisplayApplyPlan, String>)
    ensures
        match r {
            Ok(plan) => display_plan(arr.mode, arr.outputs@) == Ok::<
                (Seq<StepModel>, Seq<PlacedOutput>, u32, u32),
                Seq<char>,
            >((steps_model(plan.steps@), plan.placed@, plan.logical_width, plan.logical_height)),
            Err(e) => display_plan(arr.mode, arr.outputs@) == Err::<
                (Seq<StepModel>, Seq<PlacedOutput>, u32, u32),
                Seq<char>,
            >(e@),
        },
{
    let n = match normalize_arrangement(clone_arrangement(arr)) {
        Ok(n) => n,
        Err(e) => {
            return Err(e);
        },
    };
    let placed = match place_outputs(&n) {
        Ok(p) => p,
        Err(e) => {
            return Err(e);
        },
    };
    let (logical_width, logical_height) = arrangement_bounds(&placed);
    let mut steps: Vec<DisplayApplyStep> = Vec::new();
    match find_placed_primary(&placed) {
        Some(i) => {
            steps.push(DisplayApplyStep::SetPrimary { name: placed[i].output.name.clone() });
        },
        None => {},
    }
    let ghost f = first_placed_primary(placed@);
    let ghost head: Seq<StepModel> = if f >= 0 {
        seq![StepModel::SetPrimary(placed@[f].output.name@)]
    } else {
        Seq::empty()
    };
    assert(steps_model(steps@) =~= head) by {
        if f >= 0 {
            assert(steps@.len() == 1);
        }
    }
    let mut k: usize = 0;
    while k < placed.len()
        invariant
            k <= placed@.len(),
            steps_model(steps@) =~= head + Seq::new(k as nat, |q: int| place_step(placed@[q])),
        decreases placed@.len() - k,
    {
        let p = &placed[k];
        let ghost before = steps_model(steps@);
        steps.push(
            DisplayApplyStep::Place {
                name: p.output.name.clone(),
                x: p.x,
                y: p.y,
                width: p.output.width,
                height: p.output.height,
                scale_percent: p.output.scale_percent,
                refresh_mhz: p.output.refresh_mhz,
            },
        );
        assert(steps_model(steps@) =~= before.push(place_step(placed@[k as int])));
        k = k + 1;
    }
    let ghost mid = steps_model(steps@);
    let mut d: usize = 0;
    assert(n.outputs@.take(0) =~= Seq::<DisplayOutput>::empty());
    while d < n.outputs.len()
        invariant
            d <= n.outputs@.len(),
            steps_model(steps@) =~= mid + disable_steps(n.outputs@.take(d as int), placed@),
        decreases n.outputs@.len() - d,
    {
        let o = &n.outputs[d];
        assert(n.outputs@.take(d + 1).drop_last() =~= n.outputs@.take(d as int));
        assert(n.outputs@.take(d + 1).last() == n.outputs@[d as int]);
        if !placed_contains_name(&placed, &o.name) {
            let ghost before = steps_model(steps@);
            steps.push(DisplayApplyStep::Disable { name: o.name.clone() });
            assert(steps_model(steps@) =~= before.push(StepModel::Disable(o.name@)));
        }
        d = d + 1;
    }
    assert(n.outputs@.take(n.outputs@.len() as int) =~= n.outputs@);
    let value = layout_string(&placed);
    let ghost before = steps_model(steps@);
    steps.push(
        DisplayApplyStep::EmitLayoutEnv { key: string_of("SLOPOS_OUTPUTS_LAYOUT"), value },
    );
    assert(steps_model(steps@) =~= before.push(
        StepModel::EmitLayoutEnv("SLOPOS_OUTPUTS_LAYOUT"@, layout_text(placed@)),
    ));
    assert(steps_model(steps@) =~= plan_steps(n.outputs@, placed@));
    Ok(DisplayApplyPlan { steps, placed, logical_width, logical_height })
}

/// Mode from an optional `SLOPOS_OUTPUT_LAYOUT` style value; absent or
/// unknown means the default (extend right).
pub fn arrange_mode_from_env_value(value: Option<&str>) -> (r: ArrangeMode)
    ensures
        r == match value {
            Some(v) => match mode_of_name(lower(trim(v@))) {
                Some(m) => m,
                None => ArrangeMode::ExtendRight,
            },
            None => ArrangeMode::ExtendRight,
        },
{
    match value {
        Some(v) => match ArrangeMode::parse(v) {
            Some(m) => m,
            None => ArrangeMode::ExtendRight,
        },
        None => ArrangeMode::ExtendRight,
    }
}

/// The output is enabled and primary.
pub open spec fn enabled_primary(o: DisplayOutput) -> bool {
    o.enabled && o.is_primary
}

/// Exactly one output is an enabled primary.
pub open spec fn one_enabled_primary(t: Seq<DisplayOutput>) -> bool {
    exists|p: int|
        0 <= p < t.len() && #[trigger] enabled_primary(t[p]) && forall|j: int|
            0 <= j < t.len() && j != p ==> !enabled_primary(#[trigger] t[j])
}

proof fn lemma_enabled_primary_count(s: Seq<DisplayOutput>)
    ensures
        enabled_primary_count(s) == 0 ==> forall|j: int| 0 <= j < s.len() ==> !enabled_primary(#[trigger] s[j]),
        enabled_primary_count(s) == 1 ==> one_enabled_primary(s),
    decreases s.len(),
{
    if s.len() > 0 {
        let d = s.drop_last();
        lemma_enabled_primary_count(d);
        assert forall|j: int| 0 <= j < d.len() implies d[j] == s[j] by {}
        if enabled_primary_count(s) == 1 {
            if enabled_primary(s.last()) {
                assert(enabled_primary_count(d) == 0);
                let p = s.len() - 1;
                assert(enabled_primary(s[p]));
                assert forall|j: int| 0 <= j < s.len() && j != p implies !enabled_primary(#[trigger] s[j]) by {
                    assert(d[j] == s[j]);
                }
            } else {
                assert(enabled_primary_count(d) == 1);
                let p = choose|p: int|
                    0 <= p < d.len() && #[trigger] enabled_primary(d[p]) && forall|j: int|
                        0 <= j < d.len() && j != p ==> !enabled_primary(#[trigger] d[j]);
                assert(enabled_primary(s[p]));
                assert forall|j: int| 0 <= j < s.len() && j != p implies !enabled_primary(#[trigger] s[j]) by {
                    if j < d.len() {
                        assert(d[j] == s[j]);
                    }
                }
            }
        }
    }
}

/// A normalized arrangement has exactly one enabled primary output, and
/// every output it keeps has a non-zero size and a scale in 50..=400.
pub proof fn law_normalized_one_primary(s: Seq<DisplayOutput>)
    ensures
        normalized(s) matches Ok(t) ==> {
            &&& one_enabled_primary(t)
            &&& forall|j: int| 0 <= j < t.len() ==> #[trigger] t[j].width != 0 && t[j].height != 0
            &&& forall|j: int| 0 <= j < t.len() ==> 50 <= #[trigger] t[j].scale_percent <= 400
        },
{
    if s.len() > 0 && first_enabled(s) >= 0 {
        lemma_first_enabled(s);
        lemma_first_enabled_primary(s);
        lemma_enabled_primary_count(s);
        let t = settle_primary(s);
        let c = enabled_primary_count(s);
        assert(one_enabled_primary(t)) by {
            if c == 0 {
                let f = first_enabled(s);
                assert(enabled_primary(t[f]));
                assert forall|j: int| 0 <= j < t.len() && j != f implies !enabled_primary(#[trigger] t[j]) by {
                    assert(t[j] == s[j]);
                }
            } else if c > 1 {
                let p = first_enabled_primary(s);
                if p < 0 {
                    assert forall|j: int| 0 <= j < s.len() implies !enabled_primary(#[trigger] s[j]) by {}
                    lemma_count_zero(s);
                }
                assert(enabled_primary(t[p]));
                assert forall|j: int| 0 <= j < t.len() && j != p implies !enabled_primary(#[trigger] t[j]) by {}
            }
        }
        lemma_first_zero_sized(t);
        let u = clamp_scales(t);
        assert forall|j: int| 0 <= j < u.len() implies enabled_primary(#[trigger] u[j]) == enabled_primary(t[j]) by {}
        if first_zero_sized(t) < 0 {
            let p = choose|p: int|
                0 <= p < t.len() && #[trigger] enabled_primary(t[p]) && forall|j: int|
                    0 <= j < t.len() && j != p ==> !enabled_primary(#[trigger] t[j]);
            assert(enabled_primary(u[p]));
            assert forall|j: int| 0 <= j < u.len() && j != p implies !enabled_primary(#[trigger] u[j]) by {
                assert(enabled_primary(u[j]) == enabled_primary(t[j]));
            }
            assert forall|j: int| 0 <= j < u.len() implies #[trigger] u[j].width != 0 && u[j].height != 0 by {
                assert(u[j].width == t[j].width && u[j].height == t[j].height);
            }
        }
    }
}

proof fn lemma_count_zero(s: Seq<DisplayOutput>)
    requires
        forall|j: int| 0 <= j < s.len() ==> !enabled_primary(#[trigger] s[j]),
    ensures
        enabled_primary_count(s) == 0,
    decreases s.len(),
{
    if s.len() > 0 {
        assert forall|j: int| 0 <= j < s.drop_last().len() implies !enabled_primary(#[trigger] s.drop_last()[j]) by {
            assert(s.drop_last()[j] == s[j]);
        }
        lemma_count_zero(s.drop_last());
        assert(!enabled_primary(s[s.len() - 1]));
    }
}

/// Extending to the right lays the outputs out left to right in order on
/// one row: the first at `x`, each next one where the one before ends
/// (its logical width on, saturating at `i32::MAX`).
pub proof fn law_extend_right_side_by_side(s: Seq<DisplayOutput>, x: i32)
    ensures
        extend_right(s, x).len() == s.len(),
        s.len() > 0 ==> extend_right(s, x)[0].x == x,
        forall|i: int|
            0 <= i < s.len() ==> (#[trigger] extend_right(s, x)[i]).output == s[i]
                && extend_right(s, x)[i].y == 0,
        forall|i: int|
            0 <= i < s.len() - 1 ==> (#[trigger] extend_right(s, x)[i + 1]).x == sat_add(
                extend_right(s, x)[i].x,
                logical_extent(s[i].width, s[i].scale_percent) as i32,
            ),
    decreases s.len(),
{
    if s.len() > 0 {
        let nx = sat_add(x, logical_extent(s[0].width, s[0].scale_percent) as i32);
        law_extend_right_side_by_side(s.drop_first(), nx);
        let r = extend_right(s, x);
        let t = extend_right(s.drop_first(), nx);
        assert(r == seq![PlacedOutput { output: s[0], x, y: 0 }] + t);
        assert forall|i: int| 0 <= i < s.len() implies (#[trigger] r[i]).output == s[i]
            && r[i].y == 0 by {
            if i > 0 {
                assert(r[i] == t[i - 1]);
                assert(s.drop_first()[i - 1] == s[i]);
            }
        }
        assert forall|i: int| 0 <= i < s.len() - 1 implies (#[trigger] r[i + 1]).x == sat_add(
            r[i].x,
            logical_extent(s[i].width, s[i].scale_percent) as i32,
        ) by {
            assert(r[i + 1] == t[i]);
            if i > 0 {
                assert(r[i] == t[i - 1]);
                assert(s.drop_first()[i - 1] == s[i]);
                assert(t[i] == extend_right(s.drop_first(), nx)[(i - 1) + 1]);
            }
        }
    }
}

/// Extending downwards stacks the outputs top to bottom in order in one
/// column: the first at `y`, each next one where the one before ends.
pub proof fn law_extend_down_stacked(s: Seq<DisplayOutput>, y: i32)
    ensures
        extend_down(s, y).len() == s.len(),
        s.len() > 0 ==> extend_down(s, y)[0].y == y,
        forall|i: int|
            0 <= i < s.len() ==> (#[trigger] extend_down(s, y)[i]).output == s[i]
                && extend_down(s, y)[i].x == 0,
        forall|i: int|
            0 <= i < s.len() - 1 ==> (#[trigger] extend_down(s, y)[i + 1]).y == sat_add(
                extend_down(s, y)[i].y,
                logical_extent(s[i].height, s[i].scale_percent) as i32,
            ),
    decreases s.len(),
{
    if s.len() > 0 {
        let ny = sat_add(y, logical_extent(s[0].height, s[0].scale_percent) as i32);
        law_extend_down_stacked(s.drop_first(), ny);
        let r = extend_down(s, y);
        let t = extend_down(s.drop_first(), ny);
        assert(r == seq![PlacedOutput { output: s[0], x: 0, y }] + t);
        assert forall|i: int| 0 <= i < s.len() implies (#[trigger] r[i]).output == s[i]
            && r[i].x == 0 by {
            if i > 0 {
                assert(r[i] == t[i - 1]);
                assert(s.drop_first()[i - 1] == s[i]);
            }
        }
        assert forall|i: int| 0 <= i < s.len() - 1 implies (#[trigger] r[i + 1]).y == sat_add(
            r[i].y,
            logical_extent(s[i].height, s[i].scale_percent) as i32,
        ) by {
            assert(r[i + 1] == t[i]);
            if i > 0 {
                assert(r[i] == t[i - 1]);
                assert(s.drop_first()[i - 1] == s[i]);
                assert(t[i] == extend_down(s.drop_first(), ny)[(i - 1) + 1]);
            }
        }
    }
}

/// A logical extent is the physical extent divided by the scale factor
/// (percent) and rounded down, never below 1: with a scale of at least 1
/// and a quotient that fits in `u32`, `e * scale <= px * 100 < (e + 1) *
/// scale` whenever `px * 100 >= scale`, and `e == 1` otherwise. A scale of 0
/// acts as 1.
pub proof fn law_logical_extent_divides_by_scale(px: u32, scale: u32)
    requires
        (px as int) * 100 < (u32::MAX as int + 1) * (if scale >= 1 {
            scale as int
        } else {
            1
        }),
    ensures
        logical_extent(px, scale) >= 1,
        scale >= 1 && (px as int) * 100 >= scale as int ==> (logical_extent(px, scale) as int)
            * (scale as int) <= (px as int) * 100 && (px as int) * 100 < (logical_extent(
            px,
            scale,
        ) as int + 1) * (scale as int),
        scale >= 1 && (px as int) * 100 < scale as int ==> logical_extent(px, scale) == 1,
        logical_extent(px, 0) == logical_extent(px, 1),
{
    let s: int = if scale >= 1 {
        scale as int
    } else {
        1
    };
    let n: int = px as int * 100;
    let v: int = n / s;
    vstd::arithmetic::div_mod::lemma_fundamental_div_mod(n, s);
    vstd::arithmetic::div_mod::lemma_mod_bound(n, s);
    assert(0 <= v) by {
        vstd::arithmetic::div_mod::lemma_div_pos_is_pos(n, s);
    }
    assert(v < u32::MAX as int + 1) by {
        if v >= u32::MAX as int + 1 {
            vstd::arithmetic::mul::lemma_mul_inequality(u32::MAX as int + 1, v, s);
            vstd::arithmetic::mul::lemma_mul_is_commutative(v, s);
        }
    }
    if n >= s {
        assert(v >= 1 && v * s <= n && n < (v + 1) * s) by (nonlinear_arith)
            requires
                n == s * v + n % s,
                0 <= n % s < s,
                n >= s,
        ;
    } else {
        assert(v == 0) by {
            vstd::arithmetic::div_mod::lemma_basic_div(n, s);
        }
    }
}

} // verus!
