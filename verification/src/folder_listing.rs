//! The icons a folder window lists: hidden entries left out, folders first,
//! then by lower-cased name.
use vstd::prelude::*;

use crate::text::{chars_to_string, lex_less, lex_less_exec, owned, push_str_chars, str_chars};

verus! {

/// Text in lower case, as `str::to_lowercase` gives it.
pub uninterp spec fn str_lowercase(s: Seq<char>) -> Seq<char>;

/// Trusted: std `str::to_lowercase`; the result is the one `str_lowercase`
/// names for `s`.
#[verifier::external_body]
fn lowercase_text(s: &str) -> (r: String)
    ensures
        r@ == str_lowercase(s@),
{
    s.to_lowercase()
}

/// A name that starts with `.` is hidden.
pub open spec fn is_hidden_name(name: Seq<char>) -> bool {
    name.len() > 0 && name[0] == '.'
}

/// Entry `x` (name, is a folder) is listed strictly before `y`: a folder
/// before a file, else the lower-cased name first in character order.
pub open spec fn listed_before(x: (Seq<char>, bool), y: (Seq<char>, bool)) -> bool {
    (x.1 && !y.1) || (x.1 == y.1 && lex_less(str_lowercase(x.0), str_lowercase(y.0)))
}

/// `x` placed before the first entry it is listed before.
pub open spec fn insert_listed(s: Seq<(Seq<char>, bool)>, x: (Seq<char>, bool)) -> Seq<
    (Seq<char>, bool),
>
    decreases s.len(),
{
    if s.len() == 0 {
        seq![x]
    } else if listed_before(x, s[0]) {
        seq![x] + s
    } else {
        seq![s[0]] + insert_listed(s.drop_first(), x)
    }
}

/// The visible entries in listing order (a stable sort: entries that tie
/// keep the order they were read in).
pub open spec fn listing(s: Seq<(Seq<char>, bool)>) -> Seq<(Seq<char>, bool)>
    decreases s.len(),
{
    if s.len() == 0 {
        Seq::empty()
    } else if is_hidden_name(s.last().0) {
        listing(s.drop_last())
    } else {
        insert_listed(listing(s.drop_last()), s.last())
    }
}

/// Texts of (name, is a folder) entries.
pub open spec fn entry_views(v: Seq<(String, bool)>) -> Seq<(Seq<char>, bool)> {
    Seq::new(v.len(), |i: int| (v[i].0@, v[i].1))
}

proof fn lemma_insert_listed_at(s: Seq<(Seq<char>, bool)>, x: (Seq<char>, bool), j: int)
    requires
        0 <= j <= s.len(),
        forall|q: int| 0 <= q < j ==> !listed_before(x, #[trigger] s[q]),
        j < s.len() ==> listed_before(x, s[j]),
    ensures
        insert_listed(s, x) == s.take(j).push(x) + s.skip(j),
    decreases s.len(),
{
    if s.len() == 0 {
        assert(s.take(j).push(x) + s.skip(j) =~= seq![x]);
    } else if j == 0 {
        assert(s.take(0).push(x) + s.skip(0) =~= seq![x] + s);
    } else {
        assert forall|q: int| 0 <= q < j - 1 implies !listed_before(
            x,
            #[trigger] s.drop_first()[q],
        ) by {
            assert(s.drop_first()[q] == s[q + 1]);
        }
        lemma_insert_listed_at(s.drop_first(), x, j - 1);
        assert(seq![s[0]] + (s.drop_first().take(j - 1).push(x) + s.drop_first().skip(j - 1))
            =~= s.take(j).push(x) + s.skip(j));
    }
}

fn insertion_point(v: &Vec<(String, bool)>, x: &(String, bool)) -> (j: usize)
    ensures
        j <= v@.len(),
        forall|q: int| 0 <= q < j ==> !listed_before((x.0@, x.1), #[trigger] entry_views(v@)[q]),
        j < v@.len() ==> listed_before((x.0@, x.1), entry_views(v@)[j as int]),
{
    let xl = str_chars(lowercase_text(x.0.as_str()).as_str());
    let mut j: usize = 0;
    while j < v.len()
        invariant
            j <= v@.len(),
            xl@ == str_lowercase(x.0@),
            forall|q: int| 0 <= q < j ==> !listed_before((x.0@, x.1), #[trigger] entry_views(v@)[q]),
        decreases v@.len() - j,
    {
        let y = &v[j];
        let before = if x.1 != y.1 {
            x.1
        } else {
            let yl = str_chars(lowercase_text(y.0.as_str()).as_str());
            lex_less_exec(&xl, &yl)
        };
        assert(entry_views(v@)[j as int] == (y.0@, y.1));
        if before {
            return j;
        }
        j = j + 1;
    }
    j
}

/// The entries a folder window lists, from its (name, is a folder) entries
/// in the order they were read: names starting with `.` left out, folders
/// before files, each group by lower-cased name; ties keep their order.
pub fn sorted_visible_entries(entries: Vec<(String, bool)>) -> (r: Vec<(String, bool)>)
    ensures
        entry_views(r@) == listing(entry_views(entries@)),
{
    let mut pending = entries;
    let ghost all = entry_views(pending@);
    let ghost mut k: int = 0;
    let mut sorted: Vec<(String, bool)> = Vec::new();
    assert(all.take(0) =~= Seq::<(Seq<char>, bool)>::empty());
    assert(entry_views(sorted@) =~= Seq::<(Seq<char>, bool)>::empty());
    assert(entry_views(pending@) =~= all.skip(0));
    while pending.len() > 0
        invariant
            0 <= k <= all.len(),
            entry_views(pending@) == all.skip(k),
            entry_views(sorted@) == listing(all.take(k)),
        decreases pending@.len(),
    {
        let ghost before_pending = pending@;
        let x = pending.remove(0);
        assert(entry_views(before_pending)[0] == (x.0@, x.1));
        assert(entry_views(before_pending) == all.skip(k));
        assert(all.skip(k)[0] == all[k]);
        assert((x.0@, x.1) == all[k]);
        assert(entry_views(pending@) =~= all.skip(k + 1)) by {
            assert(all.skip(k + 1) =~= all.skip(k).drop_first());
        }
        assert(all.take(k + 1).drop_last() =~= all.take(k));
        assert(all.take(k + 1).last() == all[k]);
        let c = str_chars(x.0.as_str());
        let hidden = c.len() > 0 && c[0] == '.';
        if !hidden {
            let ghost sv = entry_views(sorted@);
            let j = insertion_point(&sorted, &x);
            proof {
                lemma_insert_listed_at(sv, (x.0@, x.1), j as int);
            }
            sorted.insert(j, x);
            assert(entry_views(sorted@) =~= sv.take(j as int).push(all[k]) + sv.skip(j as int));
        }
        proof {
            k = k + 1;
        }
    }
    assert(all.take(k) =~= all);
    sorted
}

/// An icon of a folder window.
pub struct FolderIcon {
    pub label: String,
    /// `folder` or `document`.
    pub icon: String,
}

/// Label and icon name of a folder-window icon.
pub open spec fn folder_icon_view(f: FolderIcon) -> (Seq<char>, Seq<char>) {
    (f.label@, f.icon@)
}

/// The icons listed for entries in listing order: a folder icon for a
/// folder, a document icon otherwise; a single "This folder is empty"
/// document when there is none.
pub open spec fn folder_icons_of(listed: Seq<(Seq<char>, bool)>) -> Seq<(Seq<char>, Seq<char>)> {
    if listed.len() == 0 {
        seq![("This folder is empty"@, "document"@)]
    } else {
        Seq::new(
            listed.len(),
            |i: int|
                (
                    listed[i].0,
                    if listed[i].1 {
                        "folder"@
                    } else {
                        "document"@
                    },
                ),
        )
    }
}

/// The icons a folder window shows for its (name, is a folder) entries.
pub fn folder_icons(entries: Vec<(String, bool)>) -> (r: Vec<FolderIcon>)
    ensures
        r@.map_values(|f: FolderIcon| folder_icon_view(f)) == folder_icons_of(
            listing(entry_views(entries@)),
        ),
{
    let listed = sorted_visible_entries(entries);
    let ghost lv = entry_views(listed@);
    let mut out: Vec<FolderIcon> = Vec::new();
    if listed.len() == 0 {
        out.push(FolderIcon { label: owned("This folder is empty"), icon: owned("document") });
        assert(out@.map_values(|f: FolderIcon| folder_icon_view(f)) =~= folder_icons_of(lv));
        return out;
    }
    let mut rest = listed;
    let ghost mut k: int = 0;
    assert(entry_views(rest@) =~= lv.skip(0));
    while rest.len() > 0
        invariant
            0 <= k <= lv.len(),
            lv.len() > 0,
            out@.len() == k,
            entry_views(rest@) == lv.skip(k),
            out@.map_values(|f: FolderIcon| folder_icon_view(f)) == folder_icons_of(lv).take(k),
        decreases rest@.len(),
    {
        assert(entry_views(rest@).len() == rest@.len());
        assert(k < lv.len());
        let ghost before_rest = rest@;
        let e = rest.remove(0);
        assert(entry_views(before_rest)[0] == (e.0@, e.1));
        assert(entry_views(before_rest) == lv.skip(k));
        assert(lv.skip(k)[0] == lv[k]);
        assert(lv[k] == (e.0@, e.1));
        let ghost old_out = out@;
        assert(entry_views(rest@) =~= lv.skip(k + 1)) by {
            assert(lv.skip(k + 1) =~= lv.skip(k).drop_first());
        }
        let icon = if e.1 {
            owned("folder")
        } else {
            owned("document")
        };
        out.push(FolderIcon { label: e.0, icon });
        assert(folder_icons_of(lv)[k] == folder_icon_view(out@[k]));
        assert(folder_icons_of(lv).take(k + 1) =~= folder_icons_of(lv).take(k).push(
            folder_icons_of(lv)[k],
        ));
        assert(out@ =~= old_out.push(out@[k]));
        proof {
            k = k + 1;
        }
        assert(out@.map_values(|f: FolderIcon| folder_icon_view(f)) =~= folder_icons_of(lv).take(k));
    }
    assert(folder_icons_of(lv).take(k) =~= folder_icons_of(lv));
    out
}

/// The single icon a folder window shows when its folder cannot be read.
pub fn unreadable_folder_icon(path: &str) -> (r: FolderIcon)
    ensures
        r.label@ == "⚠ Unable to read: "@ + path@,
        r.icon@ == "document"@,
{
    let mut v: Vec<char> = Vec::new();
    push_str_chars(&mut v, "⚠ Unable to read: ");
    push_str_chars(&mut v, path);
    FolderIcon { label: chars_to_string(&v), icon: owned("document") }
}

} // verus!
