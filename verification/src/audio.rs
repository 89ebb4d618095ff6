//! System volume through the PipeWire (`wpctl`) or PulseAudio (`pactl`)
//! command-line tools: backend choice, the exact argument vectors, the
//! menu-bar label and the `pactl` output parser. Running the tools is the
//! application's job.
use vstd::prelude::*;

use crate::text::{
    char_is_ws, chars_to_string, dec, is_ws, parse_u32, parse_u32_chars, push_decimal,
    push_str_chars, slice_chars, str_chars, string_views, trim_end_char, trim_end_char_chars,
};

verus! {

/// Why a volume query or change failed.
#[derive(Debug)]
pub enum AudioError {
    /// Neither `pactl` nor `wpctl` is available.
    ToolNotFound,
    /// The tool ran and failed (its trimmed standard error).
    CommandFailed(String),
    /// The tool's output held no volume.
    ParseError,
}

impl AudioError {
    /// The error's message.
    pub fn message(&self) -> (r: String)
        ensures
            r@ == audio_error_message(*self),
    {
        match self {
            AudioError::ToolNotFound => owned_text("no volume control tool found (need pactl or wpctl)"),
            AudioError::CommandFailed(m) => {
                let mut v = str_chars("volume tool failed: ");
                let mv = str_chars(m.as_str());
                crate::text::push_chars(&mut v, &mv);
                chars_to_string(&v)
            },
            AudioError::ParseError => owned_text("could not parse volume from tool output"),
        }
    }
}

/// Message of an audio error.
pub open spec fn audio_error_message(e: AudioError) -> Seq<char> {
    match e {
        AudioError::ToolNotFound => "no volume control tool found (need pactl or wpctl)"@,
        AudioError::CommandFailed(m) => "volume tool failed: "@ + m@,
        AudioError::ParseError => "could not parse volume from tool output"@,
    }
}

fn owned_text(s: &str) -> (r: String)
    ensures
        r@ == s@,
{
    crate::text::owned(s)
}

/// Backend used for volume control.
#[derive(Debug, Clone, Copy, PartialEq, Eq, Structural)]
pub enum AudioBackend {
    Pactl,
    Wpctl,
}

/// Choose the backend from which tools are present: `pactl` preferred,
/// then `wpctl`.
pub fn detect_backend(pactl_present: bool, wpctl_present: bool) -> (r: Option<AudioBackend>)
    ensures
        r == (if pactl_present {
            Some(AudioBackend::Pactl)
        } else if wpctl_present {
            Some(AudioBackend::Wpctl)
        } else {
            None::<AudioBackend>
        }),
{
    if pactl_present {
        Some(AudioBackend::Pactl)
    } else if wpctl_present {
        Some(AudioBackend::Wpctl)
    } else {
        None
    }
}

/// `percent` clamped to 100.
pub open spec fn clamp_percent(p: u8) -> u8 {
    if p > 100 {
        100
    } else {
        p
    }
}

fn texts(parts: &[&str]) -> (r: Vec<String>)
    ensures
        string_views(r@) == Seq::new(parts@.len(), |i: int| parts@[i]@),
{
    let mut out: Vec<String> = Vec::new();
    let mut i: usize = 0;
    while i < parts.len()
        invariant
            i <= parts@.len(),
            string_views(out@) == Seq::new(i as nat, |j: int| parts@[j]@),
        decreases parts@.len() - i,
    {
        let ghost before = string_views(out@);
        let t = crate::text::owned(parts[i]);
        assert(t@ == parts@[i as int]@);
        out.push(t);
        assert(string_views(out@) =~= before.push(parts@[i as int]@));
        assert(string_views(out@) =~= Seq::new((i + 1) as nat, |j: int| parts@[j]@));
        i = i + 1;
    }
    out
}

/// Argument vector of `pactl set-sink-volume`: the clamped percentage as
/// `{p}%`.
pub fn volume_pactl_set_plan(percent: u8) -> (r: Vec<String>)
    ensures
        string_views(r@) == seq![
            "pactl"@,
            "set-sink-volume"@,
            "@DEFAULT_SINK@"@,
            dec(clamp_percent(percent) as nat) + "%"@,
        ],
{
    let p = if percent > 100 {
        100
    } else {
        percent
    };
    let mut out = texts(&["pactl", "set-sink-volume", "@DEFAULT_SINK@"]);
    let mut v: Vec<char> = Vec::new();
    push_decimal(&mut v, p as u64);
    push_str_chars(&mut v, "%");
    let ghost before = string_views(out@);
    out.push(chars_to_string(&v));
    assert(string_views(out@) =~= before.push(v@));
    proof {
        assert(before =~= seq!["pactl"@, "set-sink-volume"@, "@DEFAULT_SINK@"@]);
    }
    out
}

/// `p / 100` written with two decimals (`{:.2}` of the linear volume):
/// `0.pp` below 100, `1.00` at 100.
pub open spec fn linear_text(p: u8) -> Seq<char>
    recommends
        p <= 100,
{
    dec((p / 100) as nat) + "."@ + dec(((p % 100) / 10) as nat) + dec((p % 10) as nat)
}

/// Argument vector of `wpctl set-volume`: the clamped percentage as a
/// linear volume with two decimals.
pub fn volume_wpctl_set_plan(percent: u8) -> (r: Vec<String>)
    ensures
        string_views(r@) == seq![
            "wpctl"@,
            "set-volume"@,
            "@DEFAULT_AUDIO_SINK@"@,
            linear_text(clamp_percent(percent)),
        ],
{
    let p = if percent > 100 {
        100
    } else {
        percent
    };
    let mut out = texts(&["wpctl", "set-volume", "@DEFAULT_AUDIO_SINK@"]);
    let mut v: Vec<char> = Vec::new();
    push_decimal(&mut v, (p / 100) as u64);
    push_str_chars(&mut v, ".");
    push_decimal(&mut v, ((p % 100) / 10) as u64);
    push_decimal(&mut v, (p % 10) as u64);
    let ghost before = string_views(out@);
    out.push(chars_to_string(&v));
    assert(string_views(out@) =~= before.push(v@));
    proof {
        assert(before =~= seq!["wpctl"@, "set-volume"@, "@DEFAULT_AUDIO_SINK@"@]);
    }
    out
}

/// Argument vector of `pactl get-sink-volume`.
pub fn volume_pactl_get_plan() -> (r: Vec<String>)
    ensures
        string_views(r@) == seq!["pactl"@, "get-sink-volume"@, "@DEFAULT_SINK@"@],
{
    let r = texts(&["pactl", "get-sink-volume", "@DEFAULT_SINK@"]);
    assert(string_views(r@) =~= seq!["pactl"@, "get-sink-volume"@, "@DEFAULT_SINK@"@]);
    r
}

/// Argument vector of `wpctl get-volume`.
pub fn volume_wpctl_get_plan() -> (r: Vec<String>)
    ensures
        string_views(r@) == seq!["wpctl"@, "get-volume"@, "@DEFAULT_AUDIO_SINK@"@],
{
    let r = texts(&["wpctl", "get-volume", "@DEFAULT_AUDIO_SINK@"]);
    assert(string_views(r@) =~= seq!["wpctl"@, "get-volume"@, "@DEFAULT_AUDIO_SINK@"@]);
    r
}

/// The command that reads the default sink volume with the detected
/// backend; `ToolNotFound` when there is none.
pub fn volume_get_command(backend: Option<AudioBackend>) -> (r: Result<Vec<String>, AudioError>)
    ensures
        match backend {
            None => r matches Err(AudioError::ToolNotFound),
            Some(AudioBackend::Pactl) => r matches Ok(v) && string_views(v@) == seq![
                "pactl"@,
                "get-sink-volume"@,
                "@DEFAULT_SINK@"@,
            ],
            Some(AudioBackend::Wpctl) => r matches Ok(v) && string_views(v@) == seq![
                "wpctl"@,
                "get-volume"@,
                "@DEFAULT_AUDIO_SINK@"@,
            ],
        },
{
    match backend {
        None => Err(AudioError::ToolNotFound),
        Some(AudioBackend::Pactl) => Ok(volume_pactl_get_plan()),
        Some(AudioBackend::Wpctl) => Ok(volume_wpctl_get_plan()),
    }
}

/// The command that sets the default sink volume to `percent` (clamped to
/// 100) with the detected backend; `ToolNotFound` when there is none.
pub fn volume_set_command(backend: Option<AudioBackend>, percent: u8) -> (r: Result<
    Vec<String>,
    AudioError,
>)
    ensures
        match backend {
            None => r matches Err(AudioError::ToolNotFound),
            Some(AudioBackend::Pactl) => r matches Ok(v) && string_views(v@) == seq![
                "pactl"@,
                "set-sink-volume"@,
                "@DEFAULT_SINK@"@,
                dec(clamp_percent(percent) as nat) + "%"@,
            ],
            Some(AudioBackend::Wpctl) => r matches Ok(v) && string_views(v@) == seq![
                "wpctl"@,
                "set-volume"@,
                "@DEFAULT_AUDIO_SINK@"@,
                linear_text(clamp_percent(percent)),
            ],
        },
{
    match backend {
        None => Err(AudioError::ToolNotFound),
        Some(AudioBackend::Pactl) => Ok(volume_pactl_set_plan(percent)),
        Some(AudioBackend::Wpctl) => Ok(volume_wpctl_set_plan(percent)),
    }
}

/// Menu-bar volume label: `🔊 {p}%` (clamped), or `🔊 —` when unknown.
pub fn volume_status_label(percent: Option<u8>) -> (r: String)
    ensures
        r@ == match percent {
            Some(p) => "🔊 "@ + dec(clamp_percent(p) as nat) + "%"@,
            None => "🔊 —"@,
        },
{
    match percent {
        Some(p) => {
            let p = if p > 100 {
                100
            } else {
                p
            };
            let mut v = str_chars("🔊 ");
            push_decimal(&mut v, p as u64);
            push_str_chars(&mut v, "%");
            chars_to_string(&v)
        },
        None => crate::text::owned("🔊 —"),
    }
}

/// Length of the leading run of non-whitespace characters.
pub open spec fn run_end(s: Seq<char>) -> nat
    decreases s.len(),
{
    if s.len() == 0 || is_ws(s[0]) {
        0
    } else {
        1 + run_end(s.drop_first())
    }
}

pub proof fn lemma_run_end(s: Seq<char>)
    ensures
        run_end(s) <= s.len(),
        forall|i: int| 0 <= i < run_end(s) ==> !is_ws(#[trigger] s[i]),
        run_end(s) < s.len() ==> is_ws(s[run_end(s) as int]),
    decreases s.len(),
{
    if s.len() > 0 && !is_ws(s[0]) {
        lemma_run_end(s.drop_first());
        assert forall|i: int| 0 <= i < run_end(s) implies !is_ws(#[trigger] s[i]) by {
            if i > 0 {
                assert(s[i] == s.drop_first()[i - 1]);
            }
        }
    }
}

/// Volume a `pactl` token gives: trailing commas dropped, then a `%`
/// suffix on a `u32`, clamped to 100.
pub open spec fn token_percent(tok: Seq<char>) -> Option<u8> {
    let t = trim_end_char(tok, ',');
    if t.len() > 0 && t.last() == '%' {
        match parse_u32(t.drop_last()) {
            Some(v) => Some(
                if v > 100 {
                    100u8
                } else {
                    v as u8
                },
            ),
            None => None,
        }
    } else {
        None
    }
}

/// First whitespace-separated token of `s` that carries a volume.
pub open spec fn pactl_scan(s: Seq<char>) -> Option<u8>
    decreases s.len(),
{
    if s.len() == 0 {
        None
    } else if is_ws(s[0]) {
        pactl_scan(s.drop_first())
    } else {
        proof {
            lemma_run_end(s);
        }
        let e = run_end(s) as int;
        match token_percent(s.take(e)) {
            Some(v) => Some(v),
            None => pactl_scan(s.skip(e)),
        }
    }
}

/// Parse `pactl get-sink-volume` output: the first percentage found (the
/// left channel), clamped to 0–100.
pub fn parse_pactl_volume(output: &str) -> (r: Option<u8>)
    ensures
        r == pactl_scan(output@),
{
    let s = str_chars(output);
    let n = s.len();
    let mut i: usize = 0;
    assert(s@.skip(0) =~= s@);
    while i < n
        invariant
            n == s@.len(),
            s@ == output@,
            i <= n,
            pactl_scan(output@) == pactl_scan(s@.skip(i as int)),
        decreases n - i,
    {
        let ghost rest = s@.skip(i as int);
        if char_is_ws(s[i]) {
            assert(rest.drop_first() =~= s@.skip(i + 1));
            i = i + 1;
        } else {
            proof {
                lemma_run_end(rest);
            }
            let mut j: usize = i;
            while j < n && !char_is_ws(s[j])
                invariant
                    n == s@.len(),
                    i <= j <= n,
                    rest == s@.skip(i as int),
                    run_end(rest) <= rest.len(),
                    forall|q: int| 0 <= q < run_end(rest) ==> !is_ws(#[trigger] rest[q]),
                    run_end(rest) < rest.len() ==> is_ws(rest[run_end(rest) as int]),
                    forall|q: int| i <= q < j ==> !is_ws(#[trigger] s@[q]),
                    j - i <= run_end(rest),
                decreases n - j,
            {
                assert(rest[j - i] == s@[j as int]);
                j = j + 1;
            }
            assert(j - i == run_end(rest)) by {
                if j - i < run_end(rest) {
                    assert(rest[j - i] == s@[j as int]);
                }
            }
            let tok = slice_chars(&s, i, j);
            assert(tok@ =~= rest.take(run_end(rest) as int));
            let t = trim_end_char_chars(&tok, ',');
            if t.len() > 0 && t[t.len() - 1] == '%' {
                let digits = slice_chars(&t, 0, t.len() - 1);
                assert(digits@ =~= t@.drop_last());
                match parse_u32_chars(&digits) {
                    Some(v) => {
                        return Some(
                            if v > 100 {
                                100u8
                            } else {
                                v as u8
                            },
                        );
                    },
                    None => {},
                }
            }
            assert(rest.skip(run_end(rest) as int) =~= s@.skip(j as int));
            i = j;
        }
    }
    assert(s@.skip(n as int) =~= Seq::<char>::empty());
    None
}

} // verus!
