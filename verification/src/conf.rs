//! Flat `key=value` settings text: the line grammar shared by every
//! `settings.conf` reader.
//!
//! A line is trimmed; blank lines and lines starting with `#` are skipped; the
//! rest split at the first `=` into a trimmed key and a trimmed value (a line
//! without `=` is skipped).
use vstd::prelude::*;

use crate::text::{
    eq_str, lines, lower, lower_chars, split_lines, split_once, split_once_chars, starts_with,
    str_chars, trim, trim_chars, views,
};

verus! {

/// Key and value of one raw settings line, or `None` when the line carries no entry.
pub open spec fn conf_entry(raw: Seq<char>) -> Option<(Seq<char>, Seq<char>)> {
    let line = trim(raw);
    if line.len() == 0 || starts_with(line, "#"@) {
        None
    } else {
        match split_once(line, '=') {
            Some(kv) => Some((trim(kv.0), trim(kv.1))),
            None => None,
        }
    }
}

/// The entries of a settings text, in order.
pub open spec fn conf_entries_of(ls: Seq<Seq<char>>) -> Seq<(Seq<char>, Seq<char>)>
    decreases ls.len(),
{
    if ls.len() == 0 {
        Seq::empty()
    } else {
        match conf_entry(ls.last()) {
            Some(e) => conf_entries_of(ls.drop_last()).push(e),
            None => conf_entries_of(ls.drop_last()),
        }
    }
}

/// The `key=value` entries of `text`, in order.
pub open spec fn conf_entries(text: Seq<char>) -> Seq<(Seq<char>, Seq<char>)> {
    conf_entries_of(lines(text))
}

/// Settings-file boolean: `true`, `1`, `yes` or `on`, ASCII case ignored.
pub open spec fn conf_bool(v: Seq<char>) -> bool {
    let l = lower(v);
    l == "true"@ || l == "1"@ || l == "yes"@ || l == "on"@
}

pub fn conf_bool_exec(v: &[char]) -> (r: bool)
    ensures
        r == conf_bool(v@),
{
    let l = lower_chars(v);
    eq_str(&l, "true") || eq_str(&l, "1") || eq_str(&l, "yes") || eq_str(&l, "on")
}

/// One key/value entry as characters.
pub struct ConfEntry {
    pub key: Vec<char>,
    pub value: Vec<char>,
}

fn entry_of_line(raw: &[char]) -> (r: Option<ConfEntry>)
    ensures
        match r {
            Some(e) => conf_entry(raw@) == Some((e.key@, e.value@)),
            None => conf_entry(raw@) is None,
        },
{
    let line = trim_chars(raw);
    if line.len() == 0 || line[0] == '#' {
        proof {
            if line@.len() > 0 {
                assert(line@.take(1) =~= "#"@) by {
                    reveal_strlit("#");
                }
            }
        }
        return None;
    }
    proof {
        reveal_strlit("#");
        if starts_with(line@, "#"@) {
            assert(line@.take(1)[0] == line@[0]);
        }
    }
    match split_once_chars(&line, '=') {
        Some(kv) => {
            let k = trim_chars(&kv.0);
            let v = trim_chars(&kv.1);
            Some(ConfEntry { key: k, value: v })
        },
        None => None,
    }
}

/// The `key=value` entries of a settings text, in order.
pub fn parse_conf_entries(text: &str) -> (r: Vec<ConfEntry>)
    ensures
        r@.len() == conf_entries(text@).len(),
        forall|i: int|
            0 <= i < r@.len() ==> (#[trigger] r@[i]).key@ == conf_entries(text@)[i].0
                && r@[i].value@ == conf_entries(text@)[i].1,
{
    let chars = str_chars(text);
    let ls = split_lines(&chars);
    let ghost l = views(ls@);
    let mut out: Vec<ConfEntry> = Vec::new();
    let mut i: usize = 0;
    assert(l.take(0) =~= Seq::<Seq<char>>::empty());
    while i < ls.len()
        invariant
            l == views(ls@),
            l == lines(text@),
            i <= ls@.len(),
            out@.len() == conf_entries_of(l.take(i as int)).len(),
            forall|k: int|
                0 <= k < out@.len() ==> (#[trigger] out@[k]).key@ == conf_entries_of(
                    l.take(i as int),
                )[k].0 && out@[k].value@ == conf_entries_of(l.take(i as int))[k].1,
        decreases ls@.len() - i,
    {
        assert(l.take(i + 1).drop_last() =~= l.take(i as int));
        assert(l.take(i + 1).last() == ls@[i as int]@);
        match entry_of_line(&ls[i]) {
            Some(e) => {
                out.push(e);
            },
            None => {},
        }
        i = i + 1;
    }
    assert(l.take(ls@.len() as int) =~= l);
    out
}

} // verus!
