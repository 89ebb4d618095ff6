//! Menu-bar status items: battery and network labels, and how often the
//! shell refreshes them.
use vstd::prelude::*;

use crate::text::{chars_to_string, dec, owned, push_chars, push_decimal, push_str_chars, str_chars};

verus! {

/// A menu-bar status item.
#[derive(Debug, Clone)]
pub struct StatusItem {
    pub id: String,
    pub label: String,
    pub icon: Option<String>,
    pub priority: i32,
}

/// How often the shell re-queries battery, volume and network.
pub const STATUS_REFRESH_INTERVAL_SECS: u64 = 5;

/// Battery label: `🔋 {pct}%`, or `🔋 —` when unknown.
pub fn battery_status_label(percentage: Option<u8>) -> (r: String)
    ensures
        r@ == match percentage {
            Some(p) => "🔋 "@ + dec(p as nat) + "%"@,
            None => "🔋 —"@,
        },
{
    match percentage {
        Some(p) => {
            let mut v = str_chars("🔋 ");
            push_decimal(&mut v, p as u64);
            push_str_chars(&mut v, "%");
            chars_to_string(&v)
        },
        None => owned("🔋 —"),
    }
}

/// Network label: `📶 —` when networking is unavailable, else the primary
/// connection's name when it has a non-empty one, else the state text.
pub fn network_status_label(available: bool, primary_name: Option<&str>, state: &str) -> (r: String)
    ensures
        r@ == if !available {
            "📶 —"@
        } else {
            match primary_name {
                Some(n) => if n@.len() > 0 {
                    "📶 "@ + n@
                } else {
                    "📶 "@ + state@
                },
                None => "📶 "@ + state@,
            }
        },
{
    if !available {
        return owned("📶 —");
    }
    let mut v = str_chars("📶 ");
    let shown = match primary_name {
        Some(n) => {
            let nv = str_chars(n);
            if nv.len() > 0 {
                nv
            } else {
                str_chars(state)
            }
        },
        None => str_chars(state),
    };
    push_chars(&mut v, &shown);
    chars_to_string(&v)
}

/// The message key of a session action's menu label, for the actions the
/// menu relabels by locale.
pub open spec fn action_label_key(action_id: Seq<char>) -> Option<Seq<char>> {
    if action_id == "shell.lock"@ {
        Some("menu.lock_screen"@)
    } else if action_id == "shell.log_out"@ || action_id == "shell.logout"@ {
        Some("menu.log_out"@)
    } else if action_id == "shell.suspend"@ || action_id == "shell.sleep"@ {
        Some("menu.suspend"@)
    } else if action_id == "shell.reboot"@ || action_id == "shell.restart"@ {
        Some("menu.reboot"@)
    } else if action_id == "shell.power_off"@ || action_id == "shell.shutdown"@ || action_id
        == "shell.poweroff"@ {
        Some("menu.power_off"@)
    } else if action_id == "shell.quit"@ {
        Some("menu.quit"@)
    } else if action_id == "shell.force_quit"@ {
        Some("menu.force_quit"@)
    } else if action_id == "shell.notification_center"@ {
        Some("menu.notification_center"@)
    } else if action_id == "shell.about"@ {
        Some("menu.about"@)
    } else {
        None
    }
}

/// The catalog key of a session action's label.
pub fn action_label_message_key(action_id: &str) -> (r: Option<&'static str>)
    ensures
        match r {
            Some(k) => action_label_key(action_id@) == Some(k@),
            None => action_label_key(action_id@) is None,
        },
{
    let e = |t: &str| -> (b: bool)
        ensures
            b == (action_id@ == t@),
        { crate::text::str_eq(action_id, t) };
    if e("shell.lock") {
        Some("menu.lock_screen")
    } else if e("shell.log_out") || e("shell.logout") {
        Some("menu.log_out")
    } else if e("shell.suspend") || e("shell.sleep") {
        Some("menu.suspend")
    } else if e("shell.reboot") || e("shell.restart") {
        Some("menu.reboot")
    } else if e("shell.power_off") || e("shell.shutdown") || e("shell.poweroff") {
        Some("menu.power_off")
    } else if e("shell.quit") {
        Some("menu.quit")
    } else if e("shell.force_quit") {
        Some("menu.force_quit")
    } else if e("shell.notification_center") {
        Some("menu.notification_center")
    } else if e("shell.about") {
        Some("menu.about")
    } else {
        None
    }
}

/// The localized label of a session action's menu item, for the actions
/// the menu relabels; other items keep their label.
pub fn locale_label_for_action(action_id: &str, locale: &crate::i18n::LocaleId) -> (r: Option<
    String,
>)
    ensures
        match action_label_key(action_id@) {
            Some(k) => r matches Some(l) && l@ == crate::i18n::lookup(
                (crate::i18n::insert_all(Map::empty(), crate::i18n::builtin_messages()), "en"@),
                k,
                *locale,
            ),
            None => r is None,
        },
{
    match action_label_message_key(action_id) {
        Some(k) => Some(crate::i18n::tr(k, locale)),
        None => None,
    }
}

/// The generated Window-menu Space rows by default: `Desktop 1` to
/// `Desktop 8`, with their indices.
pub fn default_workspace_items() -> (r: Vec<(usize, String)>)
    ensures
        r@.len() == 8,
        forall|i: int| 0 <= i < 8 ==> (#[trigger] r@[i]).0 == i && r@[i].1@ == "Desktop "@ + dec(
            (i + 1) as nat,
        ),
{
    let mut out: Vec<(usize, String)> = Vec::new();
    let mut i: usize = 0;
    while i < 8
        invariant
            i <= 8,
            out@.len() == i,
            forall|j: int| 0 <= j < i ==> (#[trigger] out@[j]).0 == j && out@[j].1@ == "Desktop "@
                + dec((j + 1) as nat),
        decreases 8 - i,
    {
        let mut v = str_chars("Desktop ");
        push_decimal(&mut v, (i + 1) as u64);
        out.push((i, chars_to_string(&v)));
        i = i + 1;
    }
    out
}

/// The digit key of a Space's Ctrl+Alt shortcut: `1` to `8` for the first
/// eight Spaces, none after.
pub fn workspace_shortcut_digit(index: usize) -> (r: Option<char>)
    ensures
        r == (if index < 8 {
            Some(((index + 49) as u32) as char)
        } else {
            None::<char>
        }),
{
    if index < 8 {
        let b = (index + 49) as u8;
        Some(b as char)
    } else {
        None
    }
}

/// The status items the menu bar shows, from what was read: battery
/// (priority 10), volume (15) and network (20), each with its label and
/// icon of the same name.
pub fn status_items_for(
    battery_percentage: Option<u8>,
    volume_percent: Option<u8>,
    network_available: bool,
    network_primary_name: Option<&str>,
    network_state: &str,
) -> (r: Vec<StatusItem>)
    ensures
        r@.len() == 3,
        r@[0].id@ == "battery"@,
        r@[0].icon is Some && r@[0].icon->0@ == "battery"@,
        r@[0].priority == 10,
        r@[1].id@ == "volume"@,
        r@[1].icon is Some && r@[1].icon->0@ == "volume"@,
        r@[1].priority == 15,
        r@[2].id@ == "network"@,
        r@[2].icon is Some && r@[2].icon->0@ == "network"@,
        r@[2].priority == 20,
        r@[0].label@ == match battery_percentage {
            Some(p) => "🔋 "@ + dec(p as nat) + "%"@,
            None => "🔋 —"@,
        },
        r@[1].label@ == match volume_percent {
            Some(p) => "🔊 "@ + dec(crate::audio::clamp_percent(p) as nat) + "%"@,
            None => "🔊 —"@,
        },
        r@[2].label@ == if !network_available {
            "📶 —"@
        } else {
            match network_primary_name {
                Some(n) => if n@.len() > 0 {
                    "📶 "@ + n@
                } else {
                    "📶 "@ + network_state@
                },
                None => "📶 "@ + network_state@,
            }
        },
{
    let mut out: Vec<StatusItem> = Vec::new();
    out.push(
        StatusItem {
            id: owned("battery"),
            label: battery_status_label(battery_percentage),
            icon: Some(owned("battery")),
            priority: 10,
        },
    );
    out.push(
        StatusItem {
            id: owned("volume"),
            label: crate::audio::volume_status_label(volume_percent),
            icon: Some(owned("volume")),
            priority: 15,
        },
    );
    out.push(
        StatusItem {
            id: owned("network"),
            label: network_status_label(network_available, network_primary_name, network_state),
            icon: Some(owned("network")),
            priority: 20,
        },
    );
    out
}

/// `x` placed before the first item of lower priority.
pub open spec fn insert_by_priority(s: Seq<StatusItem>, x: StatusItem) -> Seq<StatusItem>
    decreases s.len(),
{
    if s.len() == 0 {
        seq![x]
    } else if s[0].priority < x.priority {
        seq![x] + s
    } else {
        seq![s[0]] + insert_by_priority(s.drop_first(), x)
    }
}

/// Items by descending priority; items of equal priority keep their order.
pub open spec fn sort_by_priority(s: Seq<StatusItem>) -> Seq<StatusItem>
    decreases s.len(),
{
    if s.len() == 0 {
        Seq::empty()
    } else {
        insert_by_priority(sort_by_priority(s.drop_last()), s.last())
    }
}

/// No item has a higher priority than one before it.
pub open spec fn priority_descending(s: Seq<StatusItem>) -> bool {
    forall|i: int, j: int| 0 <= i < j < s.len() ==> s[j].priority <= s[i].priority
}

proof fn lemma_insert_by_priority_at(s: Seq<StatusItem>, x: StatusItem, j: int)
    requires
        0 <= j <= s.len(),
        forall|q: int| 0 <= q < j ==> x.priority <= #[trigger] s[q].priority,
        j < s.len() ==> s[j].priority < x.priority,
    ensures
        insert_by_priority(s, x) == s.take(j).push(x) + s.skip(j),
    decreases s.len(),
{
    if s.len() == 0 {
        assert(s.take(j).push(x) + s.skip(j) =~= seq![x]);
    } else if j == 0 {
        assert(s.take(0).push(x) + s.skip(0) =~= seq![x] + s);
    } else {
        assert forall|q: int| 0 <= q < j - 1 implies x.priority
            <= #[trigger] s.drop_first()[q].priority by {
            assert(s.drop_first()[q] == s[q + 1]);
        }
        lemma_insert_by_priority_at(s.drop_first(), x, j - 1);
        assert(seq![s[0]] + (s.drop_first().take(j - 1).push(x) + s.drop_first().skip(j - 1))
            =~= s.take(j).push(x) + s.skip(j));
    }
}

proof fn lemma_insert_by_priority_descending(s: Seq<StatusItem>, x: StatusItem)
    requires
        priority_descending(s),
    ensures
        priority_descending(insert_by_priority(s, x)),
        insert_by_priority(s, x).len() == s.len() + 1,
        forall|k: int|
            0 <= k < insert_by_priority(s, x).len() ==> (#[trigger] insert_by_priority(s, x)[k]
                == x || s.contains(insert_by_priority(s, x)[k])),
    decreases s.len(),
{
    if s.len() > 0 && !(s[0].priority < x.priority) {
        let t = s.drop_first();
        assert(priority_descending(t)) by {
            assert forall|i: int, j: int| 0 <= i < j < t.len() implies t[j].priority
                <= t[i].priority by {
                assert(t[i] == s[i + 1] && t[j] == s[j + 1]);
            }
        }
        lemma_insert_by_priority_descending(t, x);
        let r = insert_by_priority(t, x);
        assert forall|k: int| 0 <= k < r.len() implies s[0].priority >= #[trigger] r[k].priority by {
            if r[k] != x {
                let m = choose|m: int| 0 <= m < t.len() && t[m] == r[k];
                assert(t[m] == s[m + 1]);
            }
        }
        assert forall|k: int| 0 <= k < r.len() && r[k] != x implies s.contains(#[trigger] r[k]) by {
            let m = choose|m: int| 0 <= m < t.len() && t[m] == r[k];
            assert(s[m + 1] == r[k]);
        }
        assert(insert_by_priority(s, x) == seq![s[0]] + r);
    } else if s.len() > 0 {
        assert forall|k: int| 1 <= k < s.len() + 1 implies (seq![x] + s)[k] == s[k - 1] by {}
    }
}

proof fn lemma_insert_by_priority_multiset(s: Seq<StatusItem>, x: StatusItem)
    ensures
        insert_by_priority(s, x).to_multiset() == s.to_multiset().insert(x),
    decreases s.len(),
{
    broadcast use vstd::seq_lib::group_to_multiset_ensures;
    broadcast use vstd::multiset::group_multiset_axioms;
    broadcast use vstd::seq_lib::lemma_multiset_commutative;

    if s.len() == 0 {
        assert(insert_by_priority(s, x) =~= s.push(x));
    } else if s[0].priority < x.priority {
        assert(seq![x] =~= Seq::<StatusItem>::empty().push(x));
        assert((seq![x] + s).to_multiset() =~= seq![x].to_multiset().add(s.to_multiset()));
    } else {
        lemma_insert_by_priority_multiset(s.drop_first(), x);
        let t = insert_by_priority(s.drop_first(), x);
        assert(s =~= seq![s[0]] + s.drop_first());
        assert(seq![s[0]] =~= Seq::<StatusItem>::empty().push(s[0]));
        assert((seq![s[0]] + t).to_multiset() =~= seq![s[0]].to_multiset().add(t.to_multiset()));
        assert((seq![s[0]] + s.drop_first()).to_multiset() =~= seq![s[0]].to_multiset().add(
            s.drop_first().to_multiset(),
        ));
    }
}

/// The status bar keeps every item it was given, ordered by descending
/// priority, however the items were added.
pub proof fn law_status_items_by_priority(s: Seq<StatusItem>)
    ensures
        priority_descending(sort_by_priority(s)),
        sort_by_priority(s).to_multiset() == s.to_multiset(),
        sort_by_priority(s).len() == s.len(),
    decreases s.len(),
{
    broadcast use vstd::seq_lib::group_to_multiset_ensures;

    if s.len() > 0 {
        law_status_items_by_priority(s.drop_last());
        lemma_insert_by_priority_descending(sort_by_priority(s.drop_last()), s.last());
        lemma_insert_by_priority_multiset(sort_by_priority(s.drop_last()), s.last());
        assert(s.drop_last().push(s.last()) =~= s);
    }
}

fn priority_insertion_point(v: &Vec<StatusItem>, priority: i32) -> (j: usize)
    ensures
        j <= v@.len(),
        forall|q: int| 0 <= q < j ==> priority <= #[trigger] v@[q].priority,
        j < v@.len() ==> v@[j as int].priority < priority,
{
    let mut j: usize = 0;
    while j < v.len()
        invariant
            j <= v@.len(),
            forall|q: int| 0 <= q < j ==> priority <= #[trigger] v@[q].priority,
        decreases v@.len() - j,
    {
        if v[j].priority < priority {
            return j;
        }
        j = j + 1;
    }
    j
}

/// Adds a status item, then orders the items by descending priority
/// (a stable sort: equal priorities keep the order they were added in).
pub fn add_status_item(items: &mut Vec<StatusItem>, item: StatusItem)
    ensures
        final(items)@ == sort_by_priority(old(items)@.push(item)),
{
    let mut pending: Vec<StatusItem> = Vec::new();
    std::mem::swap(items, &mut pending);
    pending.push(item);
    let ghost all = pending@;
    let ghost mut k: int = 0;
    assert(all.take(0) =~= Seq::<StatusItem>::empty());
    assert(all.skip(0) =~= all);
    while pending.len() > 0
        invariant
            0 <= k <= all.len(),
            pending@ == all.skip(k),
            items@ == sort_by_priority(all.take(k)),
        decreases pending@.len(),
    {
        let x = pending.remove(0);
        assert(x == all[k]);
        let ghost before = items@;
        let j = priority_insertion_point(items, x.priority);
        proof {
            lemma_insert_by_priority_at(before, x, j as int);
        }
        items.insert(j, x);
        assert(items@ =~= before.take(j as int).push(x) + before.skip(j as int));
        assert(all.take(k + 1).drop_last() =~= all.take(k));
        assert(all.take(k + 1).last() == all[k]);
        assert(all.skip(k + 1) =~= all.skip(k).drop_first());
        proof {
            k = k + 1;
        }
    }
    assert(all.take(k) =~= all);
    assert(all =~= old(items)@.push(item));
}

} // verus!
