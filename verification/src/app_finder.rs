//! Desktop application search: `.desktop` entry parsing, safe `Exec`
//! tokenizing, and the Search palette's ranking.
//!
//! Ranking is independent of any toolkit: name matches outrank secondary
//! metadata, ties are broken by normalized name, executable identity and
//! desktop-file id (never by input order where those differ), and semantic
//! duplicates are dropped after ranking.
use vstd::prelude::*;

use crate::text::{
    char_is_ws, chars_eq, chars_starts_with, chars_to_string, contains_chars, contains_seq,
    ends_with, ends_with_str, eq_ignore_case, eq_ignore_case_str, eq_str, is_ws, lex_less,
    lex_less_exec, lines, owned, split_lines, split_on, split_on_chars,
    split_once, split_once_chars, starts_with, starts_with_str, str_chars, str_is_empty, string_views, trim,
    trim_chars, views,
};

verus! {

/// An application found by desktop-entry discovery.
#[derive(Debug)]
pub struct DesktopApp {
    pub id: String,
    pub name: String,
    pub argv: Vec<String>,
    pub icon: String,
    pub comment: String,
    pub terminal: bool,
}

/// An application as texts.
pub ghost struct AppModel {
    pub id: Seq<char>,
    pub name: Seq<char>,
    pub argv: Seq<Seq<char>>,
    pub icon: Seq<char>,
    pub comment: Seq<char>,
    pub terminal: bool,
}

impl View for DesktopApp {
    type V = AppModel;

    open spec fn view(&self) -> AppModel {
        AppModel {
            id: self.id@,
            name: self.name@,
            argv: string_views(self.argv@),
            icon: self.icon@,
            comment: self.comment@,
            terminal: self.terminal,
        }
    }
}

fn clone_strings(v: &Vec<String>) -> (r: Vec<String>)
    ensures
        r@ == v@,
{
    let mut out: Vec<String> = Vec::new();
    let mut i: usize = 0;
    while i < v.len()
        invariant
            i <= v@.len(),
            out@ == v@.take(i as int),
        decreases v@.len() - i,
    {
        out.push(v[i].clone());
        i = i + 1;
        assert(out@ =~= v@.take(i as int));
    }
    assert(out@ =~= v@);
    out
}

impl Clone for DesktopApp {
    fn clone(&self) -> (r: Self)
        ensures
            r@ == self@,
    {
        DesktopApp {
            id: self.id.clone(),
            name: self.name.clone(),
            argv: clone_strings(&self.argv),
            icon: self.icon.clone(),
            comment: self.comment.clone(),
            terminal: self.terminal,
        }
    }
}

/// The characters `char::to_lowercase` yields for `c` (its full Unicode
/// lower-case mapping).
pub uninterp spec fn char_lowercase(c: char) -> Seq<char>;

/// Trusted: std `char::to_lowercase`, collected; the result is exactly the
/// mapping `char_lowercase` names, which depends on `c` alone.
#[verifier::external_body]
fn lowercase_of(c: char) -> (r: Vec<char>)
    ensures
        r@ == char_lowercase(c),
{
    c.to_lowercase().collect()
}

/// A piece of a path that names nothing: empty (repeated or trailing `/`)
/// or `.`, both of which `Path::components` normalizes away.
pub open spec fn is_empty_component(piece: Seq<char>) -> bool {
    piece.len() == 0 || piece == seq!['.']
}

/// The last piece that names something.
pub open spec fn last_component(pieces: Seq<Seq<char>>) -> Option<Seq<char>>
    decreases pieces.len(),
{
    if pieces.len() == 0 {
        None
    } else if is_empty_component(pieces.last()) {
        last_component(pieces.drop_last())
    } else {
        Some(pieces.last())
    }
}

/// Text of the final component of a path, as `Path::file_name` gives it on
/// Unix: the path split at `/`, empty and `.` pieces dropped, the last piece
/// unless it is `..`; `None` when no piece is left (as for `/`) or the last
/// is `..`.
pub open spec fn path_file_name(path: Seq<char>) -> Option<Seq<char>> {
    match last_component(crate::text::split_on(path, '/')) {
        Some(p) => if p == seq!['.', '.'] {
            None
        } else {
            Some(p)
        },
        None => None,
    }
}

/// `Path::file_name` of `path`, as text.
pub(crate) fn file_name_of(path: &str) -> (r: Option<String>)
    ensures
        match r {
            Some(n) => path_file_name(path@) == Some(n@),
            None => path_file_name(path@) is None,
        },
{
    let chars = crate::text::str_chars(path);
    let pieces = crate::text::split_on_chars(&chars, '/');
    let ghost pv = crate::text::views(pieces@);
    let mut last: Option<usize> = None;
    let mut i: usize = 0;
    assert(pv.take(0) =~= Seq::<Seq<char>>::empty());
    while i < pieces.len()
        invariant
            i <= pieces@.len(),
            pv == crate::text::views(pieces@),
            match last {
                Some(j) => j < i && last_component(pv.take(i as int)) == Some(pv[j as int]),
                None => last_component(pv.take(i as int)) is None,
            },
        decreases pieces@.len() - i,
    {
        assert(pv.take(i + 1).drop_last() =~= pv.take(i as int));
        assert(pv.take(i + 1).last() == pieces@[i as int]@);
        let piece = &pieces[i];
        let empty = piece.len() == 0 || (piece.len() == 1 && piece[0] == '.');
        assert(empty == is_empty_component(pieces@[i as int]@)) by {
            if piece.len() == 1 {
                if piece[0] == '.' {
                    assert(piece@ =~= seq!['.']);
                }
            }
        }
        if !empty {
            last = Some(i);
        }
        i = i + 1;
    }
    assert(pv.take(i as int) =~= pv);
    match last {
        None => None,
        Some(j) => {
            let piece = &pieces[j];
            let dotdot = piece.len() == 2 && piece[0] == '.' && piece[1] == '.';
            assert(dotdot == (pv[j as int] == seq!['.', '.'])) by {
                if piece.len() == 2 && piece[0] == '.' && piece[1] == '.' {
                    assert(piece@ =~= seq!['.', '.']);
                }
            }
            if dotdot {
                None
            } else {
                Some(crate::text::chars_to_string(piece.as_slice()))
            }
        },
    }
}

/// Every character replaced by its lower-case mapping.
pub open spec fn lowered(s: Seq<char>) -> Seq<char>
    decreases s.len(),
{
    if s.len() == 0 {
        Seq::empty()
    } else {
        lowered(s.drop_last()) + char_lowercase(s.last())
    }
}

/// One character of whitespace collapsing: the text so far and whether a
/// whitespace run is pending.
pub open spec fn collapse_step(st: (Seq<char>, bool), c: char) -> (Seq<char>, bool) {
    if is_ws(c) {
        (st.0, true)
    } else {
        (
            if st.1 && st.0.len() > 0 {
                st.0.push(' ')
            } else {
                st.0
            }.push(c),
            false,
        )
    }
}

/// Whitespace runs collapsed to one space, none kept at either end.
pub open spec fn collapse(l: Seq<char>) -> (Seq<char>, bool)
    decreases l.len(),
{
    if l.len() == 0 {
        (Seq::empty(), false)
    } else {
        collapse_step(collapse(l.drop_last()), l.last())
    }
}

/// Search normalization: lower-cased, whitespace runs collapsed to single
/// spaces and trimmed.
pub open spec fn normalized(s: Seq<char>) -> Seq<char> {
    collapse(lowered(s)).0
}

/// Normalize text for matching and ordering.
pub fn normalize_chars(value: &[char]) -> (r: Vec<char>)
    ensures
        r@ == normalized(value@),
{
    let mut out: Vec<char> = Vec::new();
    let mut pending = false;
    let mut i: usize = 0;
    assert(value@.take(0) =~= Seq::<char>::empty());
    while i < value.len()
        invariant
            i <= value@.len(),
            (out@, pending) == collapse(lowered(value@.take(i as int))),
        decreases value@.len() - i,
    {
        let low = lowercase_of(value[i]);
        let ghost pre = lowered(value@.take(i as int));
        assert(pre + low@.take(0) =~= pre);
        let mut j: usize = 0;
        while j < low.len()
            invariant
                j <= low@.len(),
                (out@, pending) == collapse(pre + low@.take(j as int)),
            decreases low@.len() - j,
        {
            let c = low[j];
            assert((pre + low@.take(j + 1)).drop_last() =~= pre + low@.take(j as int));
            assert((pre + low@.take(j + 1)).last() == c);
            if char_is_ws(c) {
                pending = true;
            } else {
                if pending && out.len() > 0 {
                    out.push(' ');
                }
                out.push(c);
                pending = false;
            }
            j = j + 1;
        }
        assert(value@.take(i + 1).drop_last() =~= value@.take(i as int));
        assert(value@.take(i + 1).last() == value@[i as int]);
        assert(low@.take(low@.len() as int) =~= low@);
        i = i + 1;
    }
    assert(value@.take(value@.len() as int) =~= value@);
    out
}

fn normalize_str(value: &str) -> (r: Vec<char>)
    ensures
        r@ == normalized(value@),
{
    let v = str_chars(value);
    normalize_chars(&v)
}

/// `q` can be read off `t` left to right, skipping characters of `t`
/// (greedy matching, as the iterator-based check does it).
pub open spec fn is_subsequence(q: Seq<char>, t: Seq<char>) -> bool
    decreases t.len(),
{
    if q.len() == 0 {
        true
    } else if t.len() == 0 {
        false
    } else if q[0] == t[0] {
        is_subsequence(q.drop_first(), t.drop_first())
    } else {
        is_subsequence(q, t.drop_first())
    }
}

pub fn is_subsequence_exec(q: &[char], t: &[char]) -> (r: bool)
    ensures
        r == is_subsequence(q@, t@),
{
    let mut i: usize = 0;
    let mut j: usize = 0;
    assert(q@.skip(0) =~= q@);
    assert(t@.skip(0) =~= t@);
    while i < q.len() && j < t.len()
        invariant
            i <= q@.len(),
            j <= t@.len(),
            is_subsequence(q@, t@) == is_subsequence(q@.skip(i as int), t@.skip(j as int)),
        decreases t@.len() - j,
    {
        assert(q@.skip(i as int)[0] == q@[i as int]);
        assert(t@.skip(j as int)[0] == t@[j as int]);
        assert(t@.skip(j as int).drop_first() =~= t@.skip(j + 1));
        if q[i] == t[j] {
            assert(q@.skip(i as int).drop_first() =~= q@.skip(i + 1));
            i = i + 1;
        }
        j = j + 1;
    }
    if i < q.len() {
        assert(t@.skip(j as int).len() == 0);
        assert(q@.skip(i as int).len() > 0);
    }
    i == q.len()
}

/// Texts joined with single spaces (`join(" ")`).
pub open spec fn join_spaced(parts: Seq<Seq<char>>) -> Seq<char>
    decreases parts.len(),
{
    if parts.len() == 0 {
        Seq::empty()
    } else if parts.len() == 1 {
        parts[0]
    } else {
        join_spaced(parts.drop_last()).push(' ') + parts.last()
    }
}

fn join_spaced_exec(parts: &Vec<String>) -> (r: Vec<char>)
    ensures
        r@ == join_spaced(string_views(parts@)),
{
    let mut out: Vec<char> = Vec::new();
    let mut i: usize = 0;
    assert(string_views(parts@).take(0) =~= Seq::<Seq<char>>::empty());
    while i < parts.len()
        invariant
            i <= parts@.len(),
            out@ == join_spaced(string_views(parts@).take(i as int)),
        decreases parts@.len() - i,
    {
        let ghost sv = string_views(parts@);
        assert(sv.take(i + 1).drop_last() =~= sv.take(i as int));
        assert(sv.take(i + 1).last() == parts@[i as int]@);
        if i > 0 {
            out.push(' ');
        } else {
            assert(sv.take(1) =~= seq![parts@[0]@]);
        }
        let p = str_chars(parts[i].as_str());
        let mut k: usize = 0;
        let ghost base = out@;
        while k < p.len()
            invariant
                k <= p@.len(),
                out@ == base + p@.take(k as int),
            decreases p@.len() - k,
        {
            out.push(p[k]);
            k = k + 1;
            assert(out@ =~= base + p@.take(k as int));
        }
        assert(p@.take(p@.len() as int) =~= p@);
        assert(i == 0 ==> base =~= Seq::<char>::empty());
        assert(i == 0 ==> out@ =~= p@);
        i = i + 1;
    }
    assert(string_views(parts@).take(parts@.len() as int) =~= string_views(parts@));
    out
}

/// Match rank of `app` for the normalized query `q`, best first:
/// 0 exact name, 1 name prefix, 2 name contains the query (a name token
/// starting with it is such an occurrence), 3 fuzzy name, 4 fuzzy comment or
/// command line, 5 empty query; `None` when nothing matches.
pub open spec fn match_rank(app: AppModel, q: Seq<char>) -> Option<u8> {
    if q.len() == 0 {
        Some(5)
    } else {
        let n = normalized(app.name);
        if n == q {
            Some(0)
        } else if starts_with(n, q) {
            Some(1)
        } else if contains_seq(n, q) {
            Some(2)
        } else if is_subsequence(q, n) {
            Some(3)
        } else if is_subsequence(q, normalized(app.comment)) || is_subsequence(
            q,
            normalized(join_spaced(app.argv)),
        ) {
            Some(4)
        } else {
            None
        }
    }
}

fn match_rank_exec(app: &DesktopApp, q: &[char]) -> (r: Option<u8>)
    ensures
        r == match_rank(app@, q@),
{
    if q.len() == 0 {
        return Some(5);
    }
    let n = normalize_str(app.name.as_str());
    if chars_eq(&n, q) {
        return Some(0);
    }
    if chars_starts_with(&n, q) {
        return Some(1);
    }
    if contains_chars(&n, q) {
        return Some(2);
    }
    if is_subsequence_exec(q, &n) {
        return Some(3);
    }
    let c = normalize_str(app.comment.as_str());
    if is_subsequence_exec(q, &c) {
        return Some(4);
    }
    let joined = join_spaced_exec(&app.argv);
    let cmd = normalize_chars(&joined);
    if is_subsequence_exec(q, &cmd) {
        return Some(4);
    }
    None
}

/// Three-way code-point order of texts: -1, 0 or 1.
pub open spec fn text_order(a: Seq<char>, b: Seq<char>) -> int {
    if a == b {
        0
    } else if lex_less(a, b) {
        -1
    } else {
        1
    }
}

fn text_order_exec(a: &[char], b: &[char]) -> (r: i8)
    ensures
        r == text_order(a@, b@),
{
    if chars_eq(a, b) {
        0
    } else if lex_less_exec(a, b) {
        -1
    } else {
        1
    }
}

/// Three-way lexicographic order of text lists (`Vec<String>` order).
pub open spec fn texts_order(a: Seq<Seq<char>>, b: Seq<Seq<char>>) -> int
    decreases a.len(),
{
    if a.len() == 0 {
        if b.len() == 0 {
            0
        } else {
            -1
        }
    } else if b.len() == 0 {
        1
    } else if text_order(a[0], b[0]) != 0 {
        text_order(a[0], b[0])
    } else {
        texts_order(a.drop_first(), b.drop_first())
    }
}

fn texts_order_exec(a: &Vec<String>, b: &Vec<String>) -> (r: i8)
    ensures
        r == texts_order(string_views(a@), string_views(b@)),
{
    let ghost sa = string_views(a@);
    let ghost sb = string_views(b@);
    let mut i: usize = 0;
    assert(sa.skip(0) =~= sa);
    assert(sb.skip(0) =~= sb);
    while i < a.len() && i < b.len()
        invariant
            sa == string_views(a@),
            sb == string_views(b@),
            i <= a@.len(),
            i <= b@.len(),
            texts_order(sa, sb) == texts_order(sa.skip(i as int), sb.skip(i as int)),
        decreases a@.len() - i,
    {
        let x = str_chars(a[i].as_str());
        let y = str_chars(b[i].as_str());
        assert(sa.skip(i as int)[0] == x@);
        assert(sb.skip(i as int)[0] == y@);
        let c = text_order_exec(&x, &y);
        if c != 0 {
            return c;
        }
        assert(sa.skip(i as int).drop_first() =~= sa.skip(i + 1));
        assert(sb.skip(i as int).drop_first() =~= sb.skip(i + 1));
        i = i + 1;
    }
    if i < b.len() {
        -1
    } else if i < a.len() {
        1
    } else {
        0
    }
}

/// Three-way order of booleans (`false` first).
pub open spec fn bool_order(a: bool, b: bool) -> int {
    if a == b {
        0
    } else if !a {
        -1
    } else {
        1
    }
}

/// Normalized file name of the program (`argv[0]`), the whole program text
/// when it has no file name; empty without a program.
pub open spec fn executable_identity(a: AppModel) -> Seq<char> {
    if a.argv.len() == 0 {
        Seq::empty()
    } else {
        let p = a.argv[0];
        normalized(
            match path_file_name(p) {
                Some(n) => n,
                None => p,
            },
        )
    }
}

fn executable_identity_exec(app: &DesktopApp) -> (r: Vec<char>)
    ensures
        r@ == executable_identity(app@),
{
    if app.argv.len() == 0 {
        return Vec::new();
    }
    let program = app.argv[0].as_str();
    match file_name_of(program) {
        Some(n) => normalize_str(n.as_str()),
        None => normalize_str(program),
    }
}

/// Identity under which duplicates are dropped: normalized name and
/// executable identity.
pub open spec fn semantic_key(a: AppModel) -> (Seq<char>, Seq<char>) {
    (normalized(a.name), executable_identity(a))
}

/// Deterministic application order: normalized name, executable identity,
/// normalized id, id, command line, comment, icon, terminal flag.
pub open spec fn app_order(l: AppModel, r: AppModel) -> int {
    if text_order(normalized(l.name), normalized(r.name)) != 0 {
        text_order(normalized(l.name), normalized(r.name))
    } else if text_order(executable_identity(l), executable_identity(r)) != 0 {
        text_order(executable_identity(l), executable_identity(r))
    } else if text_order(normalized(l.id), normalized(r.id)) != 0 {
        text_order(normalized(l.id), normalized(r.id))
    } else if text_order(l.id, r.id) != 0 {
        text_order(l.id, r.id)
    } else if texts_order(l.argv, r.argv) != 0 {
        texts_order(l.argv, r.argv)
    } else if text_order(l.comment, r.comment) != 0 {
        text_order(l.comment, r.comment)
    } else if text_order(l.icon, r.icon) != 0 {
        text_order(l.icon, r.icon)
    } else {
        bool_order(l.terminal, r.terminal)
    }
}

fn app_order_exec(l: &DesktopApp, r: &DesktopApp) -> (c: i8)
    ensures
        c == app_order(l@, r@),
{
    let ln = normalize_str(l.name.as_str());
    let rn = normalize_str(r.name.as_str());
    let c = text_order_exec(&ln, &rn);
    if c != 0 {
        return c;
    }
    let li = executable_identity_exec(l);
    let ri = executable_identity_exec(r);
    let c = text_order_exec(&li, &ri);
    if c != 0 {
        return c;
    }
    let lid = normalize_str(l.id.as_str());
    let rid = normalize_str(r.id.as_str());
    let c = text_order_exec(&lid, &rid);
    if c != 0 {
        return c;
    }
    let lraw = str_chars(l.id.as_str());
    let rraw = str_chars(r.id.as_str());
    let c = text_order_exec(&lraw, &rraw);
    if c != 0 {
        return c;
    }
    let c = texts_order_exec(&l.argv, &r.argv);
    if c != 0 {
        return c;
    }
    let lc = str_chars(l.comment.as_str());
    let rc = str_chars(r.comment.as_str());
    let c = text_order_exec(&lc, &rc);
    if c != 0 {
        return c;
    }
    let lic = str_chars(l.icon.as_str());
    let ric = str_chars(r.icon.as_str());
    let c = text_order_exec(&lic, &ric);
    if c != 0 {
        return c;
    }
    if l.terminal == r.terminal {
        0
    } else if !l.terminal {
        -1
    } else {
        1
    }
}

/// Ranked match `x` sorts strictly before `y`: better rank, or same rank and
/// earlier in application order.
pub open spec fn ranked_before(x: (u8, AppModel), y: (u8, AppModel)) -> bool {
    x.0 < y.0 || (x.0 == y.0 && app_order(x.1, y.1) < 0)
}

/// `x` inserted before the first element it sorts strictly before.
pub open spec fn insert_ranked(s: Seq<(u8, AppModel)>, x: (u8, AppModel)) -> Seq<(u8, AppModel)>
    decreases s.len(),
{
    if s.len() == 0 {
        seq![x]
    } else if ranked_before(x, s[0]) {
        seq![x] + s
    } else {
        seq![s[0]] + insert_ranked(s.drop_first(), x)
    }
}

/// Stable sort by rank, then application order.
pub open spec fn sort_ranked(s: Seq<(u8, AppModel)>) -> Seq<(u8, AppModel)>
    decreases s.len(),
{
    if s.len() == 0 {
        Seq::empty()
    } else {
        insert_ranked(sort_ranked(s.drop_last()), s.last())
    }
}

proof fn lemma_insert_ranked_at(s: Seq<(u8, AppModel)>, x: (u8, AppModel), j: int)
    requires
        0 <= j <= s.len(),
        forall|q: int| 0 <= q < j ==> !ranked_before(x, s[q]),
        j < s.len() ==> ranked_before(x, s[j]),
    ensures
        insert_ranked(s, x) == s.take(j).push(x) + s.skip(j),
    decreases s.len(),
{
    if s.len() == 0 {
        assert(s.take(j).push(x) + s.skip(j) =~= seq![x]);
    } else if j == 0 {
        assert(s.take(0).push(x) + s.skip(0) =~= seq![x] + s);
    } else {
        assert forall|q: int| 0 <= q < j - 1 implies !ranked_before(x, s.drop_first()[q]) by {
            assert(s.drop_first()[q] == s[q + 1]);
        }
        lemma_insert_ranked_at(s.drop_first(), x, j - 1);
        assert(seq![s[0]] + (s.drop_first().take(j - 1).push(x) + s.drop_first().skip(j - 1))
            =~= s.take(j).push(x) + s.skip(j));
    }
}

/// The apps that match the normalized query, with their ranks, in input order.
pub open spec fn rank_matches(apps: Seq<AppModel>, q: Seq<char>) -> Seq<(u8, AppModel)>
    decreases apps.len(),
{
    if apps.len() == 0 {
        Seq::empty()
    } else {
        let f = rank_matches(apps.drop_last(), q);
        match match_rank(apps.last(), q) {
            Some(r) => f.push((r, apps.last())),
            None => f,
        }
    }
}

/// Keep each app whose semantic key no earlier app has.
pub open spec fn first_per_key(s: Seq<AppModel>) -> Seq<AppModel>
    decreases s.len(),
{
    if s.len() == 0 {
        Seq::empty()
    } else if exists|j: int| 0 <= j < s.len() - 1 && semantic_key(s[j]) == semantic_key(s.last()) {
        first_per_key(s.drop_last())
    } else {
        first_per_key(s.drop_last()).push(s.last())
    }
}

/// Search palette result for `query`: matches ranked, then semantic
/// duplicates dropped.
pub open spec fn ranked_matches(apps: Seq<AppModel>, query: Seq<char>) -> Seq<AppModel> {
    first_per_key(
        sort_ranked(rank_matches(apps, normalized(query))).map_values(|p: (u8, AppModel)| p.1),
    )
}

/// Views of a sequence of apps.
pub open spec fn app_views(s: Seq<DesktopApp>) -> Seq<AppModel> {
    s.map_values(|a: DesktopApp| a@)
}

/// Views of a sequence of ranked apps.
pub open spec fn ranked_views(s: Seq<(u8, DesktopApp)>) -> Seq<(u8, AppModel)> {
    s.map_values(|p: (u8, DesktopApp)| (p.0, p.1@))
}

fn ranked_before_exec(xr: u8, xa: &DesktopApp, yr: u8, ya: &DesktopApp) -> (b: bool)
    ensures
        b == ranked_before((xr, xa@), (yr, ya@)),
{
    if xr < yr {
        true
    } else if xr > yr {
        false
    } else {
        app_order_exec(xa, ya) < 0
    }
}

fn ranked_insertion_point(v: &Vec<(u8, DesktopApp)>, rank: u8, app: &DesktopApp) -> (j: usize)
    ensures
        j <= v@.len(),
        forall|q: int| 0 <= q < j ==> !ranked_before((rank, app@), ranked_views(v@)[q]),
        j < v@.len() ==> ranked_before((rank, app@), ranked_views(v@)[j as int]),
{
    let mut j: usize = 0;
    while j < v.len()
        invariant
            j <= v@.len(),
            forall|q: int| 0 <= q < j ==> !ranked_before((rank, app@), ranked_views(v@)[q]),
        decreases v@.len() - j,
    {
        if ranked_before_exec(rank, app, v[j].0, &v[j].1) {
            return j;
        }
        j = j + 1;
    }
    j
}

fn insert_ranked_exec(v: &mut Vec<(u8, DesktopApp)>, rank: u8, app: DesktopApp)
    ensures
        ranked_views(final(v)@) == insert_ranked(ranked_views(old(v)@), (rank, app@)),
{
    let ghost sv = ranked_views(v@);
    let j = ranked_insertion_point(v, rank, &app);
    proof {
        lemma_insert_ranked_at(sv, (rank, app@), j as int);
    }
    v.insert(j, (rank, app));
    assert(ranked_views(v@) =~= sv.take(j as int).push((rank, app@)) + sv.skip(j as int));
}

/// Return the applications that match `query`, ranked for the Search
/// palette, without semantic duplicates.
pub fn ranked_app_matches(apps: &[DesktopApp], query: &str) -> (r: Vec<DesktopApp>)
    ensures
        app_views(r@) == ranked_matches(app_views(apps@), query@),
{
    let q = normalize_str(query);
    let ghost av = app_views(apps@);
    let mut sorted: Vec<(u8, DesktopApp)> = Vec::new();
    let mut i: usize = 0;
    assert(av.take(0) =~= Seq::<AppModel>::empty());
    assert(ranked_views(sorted@) =~= Seq::<(u8, AppModel)>::empty());
    while i < apps.len()
        invariant
            av == app_views(apps@),
            i <= apps@.len(),
            q@ == normalized(query@),
            ranked_views(sorted@) == sort_ranked(rank_matches(av.take(i as int), q@)),
        decreases apps@.len() - i,
    {
        assert(av.take(i + 1).drop_last() =~= av.take(i as int));
        assert(av.take(i + 1).last() == apps@[i as int]@);
        match match_rank_exec(&apps[i], &q) {
            Some(rk) => {
                let ghost f = rank_matches(av.take(i as int), q@);
                assert(f.push((rk, apps@[i as int]@)).drop_last() =~= f);
                insert_ranked_exec(&mut sorted, rk, apps[i].clone());
            },
            None => {},
        }
        i = i + 1;
    }
    assert(av.take(apps@.len() as int) =~= av);
    let ghost ordered = sort_ranked(rank_matches(av, q@)).map_values(|p: (u8, AppModel)| p.1);
    assert(ordered.len() == sorted@.len());
    assert forall|m: int| 0 <= m < sorted@.len() implies ordered[m] == sorted@[m].1@ by {
        assert(ranked_views(sorted@)[m] == (sorted@[m].0, sorted@[m].1@));
    }
    let mut out: Vec<DesktopApp> = Vec::new();
    let mut seen: Vec<(Vec<char>, Vec<char>)> = Vec::new();
    let mut k: usize = 0;
    assert(ordered.take(0) =~= Seq::<AppModel>::empty());
    assert(app_views(out@) =~= Seq::<AppModel>::empty());
    while k < sorted.len()
        invariant
            k <= sorted@.len(),
            ordered.len() == sorted@.len(),
            forall|m: int| 0 <= m < sorted@.len() ==> ordered[m] == sorted@[m].1@,
            seen@.len() == k,
            forall|m: int| 0 <= m < k ==> (seen@[m].0@, seen@[m].1@) == semantic_key(ordered[m]),
            app_views(out@) == first_per_key(ordered.take(k as int)),
        decreases sorted@.len() - k,
    {
        let app = &sorted[k].1;
        let kn = normalize_str(app.name.as_str());
        let ki = executable_identity_exec(app);
        let mut found = false;
        let mut m: usize = 0;
        while m < seen.len()
            invariant
                m <= seen@.len(),
                seen@.len() == k,
                found <==> exists|j: int|
                    0 <= j < m && (seen@[j].0@, seen@[j].1@) == (kn@, ki@),
            decreases seen@.len() - m,
        {
            if chars_eq(&seen[m].0, &kn) && chars_eq(&seen[m].1, &ki) {
                found = true;
            }
            m = m + 1;
        }
        let ghost t = ordered.take(k + 1);
        assert(t.drop_last() =~= ordered.take(k as int));
        assert(t.last() == ordered[k as int]);
        assert(semantic_key(ordered[k as int]) == (kn@, ki@));
        assert(found <==> exists|j: int| 0 <= j < t.len() - 1 && semantic_key(t[j]) == semantic_key(t.last())) by {
            if found {
                let j = choose|j: int| 0 <= j < k && (seen@[j].0@, seen@[j].1@) == (kn@, ki@);
                assert(t[j] == ordered[j]);
            }
            if exists|j: int| 0 <= j < t.len() - 1 && semantic_key(t[j]) == semantic_key(t.last()) {
                let j = choose|j: int| 0 <= j < t.len() - 1 && semantic_key(t[j]) == semantic_key(t.last());
                assert(t[j] == ordered[j]);
                assert((seen@[j].0@, seen@[j].1@) == (kn@, ki@));
            }
        }
        if !found {
            let ghost before = app_views(out@);
            out.push(app.clone());
            assert(app_views(out@) =~= before.push(ordered[k as int]));
        }
        seen.push((kn, ki));
        k = k + 1;
    }
    assert(ordered.take(ordered.len() as int) =~= ordered);
    out
}

/// `Some(p + r)` for `Some(r)`, `None` for `None`.
pub open spec fn prefixed(p: Seq<char>, o: Option<Seq<char>>) -> Option<Seq<char>> {
    match o {
        Some(r) => Some(p + r),
        None => None,
    }
}

/// Field codes that need a file, URL, icon, name or entry path; the palette
/// supplies none of them, so they expand to nothing.
pub open spec fn is_dropped_field_code(c: char) -> bool {
    c == 'f' || c == 'F' || c == 'u' || c == 'U' || c == 'i' || c == 'c' || c == 'k'
}

/// A token with its `%` field codes expanded: `%%` is `%`, the dropped codes
/// vanish, any other code (or a final lone `%`) makes the token invalid.
pub open spec fn expand_fields(t: Seq<char>) -> Option<Seq<char>>
    decreases t.len(),
{
    if t.len() == 0 {
        Some(Seq::empty())
    } else if t[0] != '%' {
        prefixed(seq![t[0]], expand_fields(t.drop_first()))
    } else if t.len() < 2 {
        None
    } else if t[1] == '%' {
        prefixed(seq!['%'], expand_fields(t.skip(2)))
    } else if is_dropped_field_code(t[1]) {
        expand_fields(t.skip(2))
    } else {
        None
    }
}

/// Expand the field codes of one `Exec` token.
pub fn expand_field_codes(token: &[char]) -> (r: Option<Vec<char>>)
    ensures
        match r {
            Some(v) => expand_fields(token@) == Some(v@),
            None => expand_fields(token@) is None,
        },
{
    let mut out: Vec<char> = Vec::new();
    let mut i: usize = 0;
    assert(token@.skip(0) =~= token@);
    assert(prefixed(Seq::<char>::empty(), expand_fields(token@)) =~= expand_fields(token@)) by {
        match expand_fields(token@) {
            Some(r) => assert(Seq::<char>::empty() + r =~= r),
            None => {},
        }
    }
    while i < token.len()
        invariant
            i <= token@.len(),
            expand_fields(token@) == prefixed(out@, expand_fields(token@.skip(i as int))),
        decreases token@.len() - i,
    {
        let ghost rest = token@.skip(i as int);
        let ch = token[i];
        assert(rest[0] == ch);
        if ch != '%' {
            assert(rest.drop_first() =~= token@.skip(i + 1));
            proof {
                match expand_fields(token@.skip(i + 1)) {
                    Some(r) => assert(out@ + (seq![ch] + r) =~= out@.push(ch) + r),
                    None => {},
                }
            }
            out.push(ch);
            i = i + 1;
        } else {
            if i + 1 >= token.len() {
                return None;
            }
            let code = token[i + 1];
            assert(rest[1] == code);
            assert(rest.skip(2) =~= token@.skip(i + 2));
            if code == '%' {
                proof {
                    match expand_fields(token@.skip(i + 2)) {
                        Some(r) => assert(out@ + (seq!['%'] + r) =~= out@.push('%') + r),
                        None => {},
                    }
                }
                out.push('%');
            } else if code == 'f' || code == 'F' || code == 'u' || code == 'U' || code == 'i'
                || code == 'c' || code == 'k' {
            } else {
                return None;
            }
            i = i + 2;
        }
    }
    assert(token@.skip(i as int) =~= Seq::<char>::empty());
    assert(out@ + Seq::<char>::empty() =~= out@);
    Some(out)
}

/// Arguments after a finished token: empty tokens are skipped, an expanded
/// token that comes out empty is dropped, an invalid one fails the line.
pub open spec fn flush_token(args: Seq<Seq<char>>, cur: Seq<char>) -> Option<Seq<Seq<char>>> {
    if cur.len() == 0 {
        Some(args)
    } else {
        match expand_fields(cur) {
            None => None,
            Some(e) => Some(
                if e.len() == 0 {
                    args
                } else {
                    args.push(e)
                },
            ),
        }
    }
}

/// The `Exec` token grammar from a position: arguments so far, the current
/// token and whether a double quote is open. Double quotes toggle quoting,
/// a backslash takes the next character literally (and fails at the end),
/// unquoted spaces and tabs end a token; an open quote at the end fails.
pub open spec fn scan_exec(
    rest: Seq<char>,
    args: Seq<Seq<char>>,
    cur: Seq<char>,
    quoted: bool,
) -> Option<Seq<Seq<char>>>
    decreases rest.len(),
{
    if rest.len() == 0 {
        if quoted {
            None
        } else {
            flush_token(args, cur)
        }
    } else if rest[0] == '"' {
        scan_exec(rest.drop_first(), args, cur, !quoted)
    } else if rest[0] == '\\' {
        if rest.len() < 2 {
            None
        } else {
            scan_exec(rest.skip(2), args, cur.push(rest[1]), quoted)
        }
    } else if (rest[0] == ' ' || rest[0] == '\t') && !quoted {
        match flush_token(args, cur) {
            None => None,
            Some(a) => scan_exec(rest.drop_first(), a, Seq::empty(), quoted),
        }
    } else {
        scan_exec(rest.drop_first(), args, cur.push(rest[0]), quoted)
    }
}

/// Argument vector of an `Exec` value, or `None` when it is malformed.
pub open spec fn exec_argv(exec: Seq<char>) -> Option<Seq<Seq<char>>> {
    scan_exec(exec, Seq::empty(), Seq::empty(), false)
}

fn push_exec_token(args: &mut Vec<String>, current: &mut Vec<char>) -> (ok: bool)
    ensures
        ok == (flush_token(string_views(old(args)@), old(current)@) is Some),
        ok ==> Some(string_views(final(args)@)) == flush_token(
            string_views(old(args)@),
            old(current)@,
        ),
        ok ==> final(current)@ == Seq::<char>::empty(),
{
    if current.len() == 0 {
        return true;
    }
    match expand_field_codes(current) {
        None => false,
        Some(expanded) => {
            current.clear();
            if expanded.len() > 0 {
                let ghost before = string_views(args@);
                let s = chars_to_string(&expanded);
                args.push(s);
                assert(string_views(args@) =~= before.push(expanded@));
            }
            true
        },
    }
}

/// Parse the freedesktop `Exec` token grammar without invoking a shell.
/// Field codes requiring a selected file or URL are omitted: Search starts
/// applications without an associated document.
pub fn parse_exec_argv(exec: &str) -> (r: Option<Vec<String>>)
    ensures
        match r {
            Some(v) => exec_argv(exec@) == Some(string_views(v@)),
            None => exec_argv(exec@) is None,
        },
{
    let e = str_chars(exec);
    let mut args: Vec<String> = Vec::new();
    let mut current: Vec<char> = Vec::new();
    let mut quoted = false;
    let mut i: usize = 0;
    assert(e@.skip(0) =~= e@);
    assert(string_views(args@) =~= Seq::<Seq<char>>::empty());
    while i < e.len()
        invariant
            i <= e@.len(),
            e@ == exec@,
            exec_argv(exec@) == scan_exec(
                e@.skip(i as int),
                string_views(args@),
                current@,
                quoted,
            ),
        decreases e@.len() - i,
    {
        let ghost rest = e@.skip(i as int);
        let ch = e[i];
        assert(rest[0] == ch);
        assert(rest.drop_first() =~= e@.skip(i + 1));
        if ch == '"' {
            quoted = !quoted;
            i = i + 1;
        } else if ch == '\\' {
            if i + 1 >= e.len() {
                return None;
            }
            assert(rest[1] == e@[i + 1]);
            assert(rest.skip(2) =~= e@.skip(i + 2));
            current.push(e[i + 1]);
            i = i + 2;
        } else if (ch == ' ' || ch == '\t') && !quoted {
            if !push_exec_token(&mut args, &mut current) {
                return None;
            }
            i = i + 1;
        } else {
            current.push(ch);
            i = i + 1;
        }
    }
    assert(e@.skip(i as int) =~= Seq::<char>::empty());
    if quoted {
        return None;
    }
    if !push_exec_token(&mut args, &mut current) {
        return None;
    }
    Some(args)
}

/// A `;`-separated desktop list names this session's desktop, `SLOPOS`
/// (ASCII case ignored).
pub open spec fn lists_session_desktop(value: Seq<char>) -> bool {
    exists|k: int|
        0 <= k < split_on(value, ';').len() && eq_ignore_case(split_on(value, ';')[k], "SLOPOS"@)
}

fn lists_session_desktop_exec(value: &[char]) -> (r: bool)
    ensures
        r == lists_session_desktop(value@),
{
    let parts = split_on_chars(value, ';');
    let ghost pv = views(parts@);
    let mut k: usize = 0;
    while k < parts.len()
        invariant
            pv == views(parts@),
            pv == split_on(value@, ';'),
            k <= parts@.len(),
            forall|j: int| 0 <= j < k ==> !eq_ignore_case(pv[j], "SLOPOS"@),
        decreases parts@.len() - k,
    {
        assert(pv[k as int] == parts@[k as int]@);
        if eq_ignore_case_str(&parts[k], "SLOPOS") {
            return true;
        }
        k = k + 1;
    }
    false
}

/// `OnlyShowIn` (when set) must list this desktop and `NotShowIn` must not.
pub open spec fn visibility_allows(only_show_in: Seq<char>, not_show_in: Seq<char>) -> bool {
    (only_show_in.len() == 0 || lists_session_desktop(only_show_in)) && !lists_session_desktop(
        not_show_in,
    )
}

/// Whether the `OnlyShowIn` / `NotShowIn` lists let this session show an entry.
pub fn desktop_visibility_allows(only_show_in: &str, not_show_in: &str) -> (r: bool)
    ensures
        r == visibility_allows(only_show_in@, not_show_in@),
{
    let only = str_chars(only_show_in);
    let not = str_chars(not_show_in);
    (only.len() == 0 || lists_session_desktop_exec(&only)) && !lists_session_desktop_exec(&not)
}

/// Keys read from a desktop file, and whether the `[Desktop Entry]` group is
/// the current one.
pub ghost struct DesktopFields {
    pub in_entry: bool,
    pub app_type: Seq<char>,
    pub name: Seq<char>,
    pub command: Seq<char>,
    pub icon: Seq<char>,
    pub comment: Seq<char>,
    pub try_exec: Seq<char>,
    pub only_show_in: Seq<char>,
    pub not_show_in: Seq<char>,
    pub no_display: bool,
    pub hidden: bool,
    pub terminal: bool,
}

/// Nothing read yet.
pub open spec fn no_fields() -> DesktopFields {
    DesktopFields {
        in_entry: false,
        app_type: Seq::empty(),
        name: Seq::empty(),
        command: Seq::empty(),
        icon: Seq::empty(),
        comment: Seq::empty(),
        try_exec: Seq::empty(),
        only_show_in: Seq::empty(),
        not_show_in: Seq::empty(),
        no_display: false,
        hidden: false,
        terminal: false,
    }
}

/// One key of the entry group: text keys keep their first value, the
/// boolean keys their last (`true`, ASCII case ignored), others are ignored.
pub open spec fn set_field(f: DesktopFields, key: Seq<char>, value: Seq<char>) -> DesktopFields {
    if key == "Type"@ {
        if f.app_type.len() == 0 { DesktopFields { app_type: value, ..f } } else { f }
    } else if key == "Name"@ {
        if f.name.len() == 0 { DesktopFields { name: value, ..f } } else { f }
    } else if key == "Exec"@ {
        if f.command.len() == 0 { DesktopFields { command: value, ..f } } else { f }
    } else if key == "Icon"@ {
        if f.icon.len() == 0 { DesktopFields { icon: value, ..f } } else { f }
    } else if key == "Comment"@ {
        if f.comment.len() == 0 { DesktopFields { comment: value, ..f } } else { f }
    } else if key == "TryExec"@ {
        if f.try_exec.len() == 0 { DesktopFields { try_exec: value, ..f } } else { f }
    } else if key == "OnlyShowIn"@ {
        if f.only_show_in.len() == 0 { DesktopFields { only_show_in: value, ..f } } else { f }
    } else if key == "NotShowIn"@ {
        if f.not_show_in.len() == 0 { DesktopFields { not_show_in: value, ..f } } else { f }
    } else if key == "NoDisplay"@ {
        DesktopFields { no_display: eq_ignore_case(value, "true"@), ..f }
    } else if key == "Hidden"@ {
        DesktopFields { hidden: eq_ignore_case(value, "true"@), ..f }
    } else if key == "Terminal"@ {
        DesktopFields { terminal: eq_ignore_case(value, "true"@), ..f }
    } else {
        f
    }
}

/// One line: a group header switches groups (only `[Desktop Entry]` is
/// read), blank and `#` lines are skipped, `key=value` lines of the entry
/// group set a field.
pub open spec fn fields_step(f: DesktopFields, raw: Seq<char>) -> DesktopFields {
    let line = trim(raw);
    if line == "[Desktop Entry]"@ {
        DesktopFields { in_entry: true, ..f }
    } else if starts_with(line, "["@) && ends_with(line, "]"@) {
        DesktopFields { in_entry: false, ..f }
    } else if !f.in_entry || line.len() == 0 || starts_with(line, "#"@) {
        f
    } else {
        match split_once(line, '=') {
            None => f,
            Some(kv) => set_field(f, trim(kv.0), trim(kv.1)),
        }
    }
}

/// Fields read from the lines, in order.
pub open spec fn desktop_fields(ls: Seq<Seq<char>>) -> DesktopFields
    decreases ls.len(),
{
    if ls.len() == 0 {
        no_fields()
    } else {
        fields_step(desktop_fields(ls.drop_last()), ls.last())
    }
}

/// A desktop entry as read from its text, before its commands are looked
/// up: the application (with id `id`) and its `TryExec` command. `None` for
/// hidden, non-application, nameless, command-less or foreign-desktop
/// entries and for a malformed or empty `Exec`.
pub open spec fn desktop_entry(content: Seq<char>, id: Seq<char>) -> Option<(AppModel, Seq<char>)> {
    let f = desktop_fields(lines(content));
    if f.hidden || f.no_display || f.app_type != "Application"@ || f.name.len() == 0
        || f.command.len() == 0 {
        None
    } else if !visibility_allows(f.only_show_in, f.not_show_in) {
        None
    } else {
        match exec_argv(f.command) {
            None => None,
            Some(argv) => if argv.len() == 0 {
                None
            } else {
                Some(
                    (
                        AppModel {
                            id,
                            name: f.name,
                            argv,
                            icon: f.icon,
                            comment: f.comment,
                            terminal: f.terminal,
                        },
                        f.try_exec,
                    ),
                )
            },
        }
    }
}

/// A parsed desktop entry whose `TryExec` command and program are still to
/// be found on the system.
#[derive(Debug)]
pub struct ParsedDesktopEntry {
    pub app: DesktopApp,
    /// `TryExec` value (empty when absent).
    pub try_exec: String,
}

impl ParsedDesktopEntry {
    /// The program to look up: the first argument.
    pub fn program(&self) -> (r: &str)
        requires
            self.app.argv@.len() > 0,
        ensures
            r@ == self.app.argv@[0]@,
    {
        self.app.argv[0].as_str()
    }

    /// The application, once the lookups are done: kept only when the
    /// `TryExec` command (if any) and the program were both found.
    pub fn into_app(self, try_exec_found: bool, program_found: bool) -> (r: Option<DesktopApp>)
        ensures
            r is Some <==> ((self.try_exec@.len() == 0 || try_exec_found) && program_found),
            r matches Some(a) ==> a@ == self.app@,
    {
        if !str_is_empty(self.try_exec.as_str()) && !try_exec_found {
            return None;
        }
        if !program_found {
            return None;
        }
        Some(self.app)
    }
}

fn set_text_once(slot: &mut String, value: &[char])
    ensures
        final(slot)@ == (if old(slot)@.len() == 0 {
            value@
        } else {
            old(slot)@
        }),
{
    if str_is_empty(slot.as_str()) {
        *slot = chars_to_string(value);
    }
}

/// Read a `.desktop` file's text into an entry awaiting its command lookups.
pub fn parse_desktop_entry(content: &str, id: &str) -> (r: Option<ParsedDesktopEntry>)
    ensures
        match r {
            Some(p) => desktop_entry(content@, id@) == Some((p.app@, p.try_exec@)),
            None => desktop_entry(content@, id@) is None,
        },
{
    let text = str_chars(content);
    let ls = split_lines(&text);
    let ghost lv = views(ls@);
    let mut in_entry = false;
    let mut app_type = String::new();
    let mut name = String::new();
    let mut exec = String::new();
    let mut icon = String::new();
    let mut comment = String::new();
    let mut try_exec = String::new();
    let mut only_show_in = String::new();
    let mut not_show_in = String::new();
    let mut no_display = false;
    let mut hidden = false;
    let mut terminal = false;
    let mut i: usize = 0;
    assert(lv.take(0) =~= Seq::<Seq<char>>::empty());
    while i < ls.len()
        invariant
            lv == views(ls@),
            lv == lines(content@),
            i <= ls@.len(),
            desktop_fields(lv.take(i as int)) == (DesktopFields {
                in_entry,
                app_type: app_type@,
                name: name@,
                command: exec@,
                icon: icon@,
                comment: comment@,
                try_exec: try_exec@,
                only_show_in: only_show_in@,
                not_show_in: not_show_in@,
                no_display,
                hidden,
                terminal,
            }),
        decreases ls@.len() - i,
    {
        assert(lv.take(i + 1).drop_last() =~= lv.take(i as int));
        assert(lv.take(i + 1).last() == ls@[i as int]@);
        let line = trim_chars(&ls[i]);
        if eq_str(&line, "[Desktop Entry]") {
            in_entry = true;
        } else if starts_with_str(&line, "[") && ends_with_str(&line, "]") {
            in_entry = false;
        } else if !in_entry || line.len() == 0 || starts_with_str(&line, "#") {
        } else {
            match split_once_chars(&line, '=') {
                None => {},
                Some((k, v)) => {
                    let key = trim_chars(&k);
                    let value = trim_chars(&v);
                    if eq_str(&key, "Type") {
                        set_text_once(&mut app_type, &value);
                    } else if eq_str(&key, "Name") {
                        set_text_once(&mut name, &value);
                    } else if eq_str(&key, "Exec") {
                        set_text_once(&mut exec, &value);
                    } else if eq_str(&key, "Icon") {
                        set_text_once(&mut icon, &value);
                    } else if eq_str(&key, "Comment") {
                        set_text_once(&mut comment, &value);
                    } else if eq_str(&key, "TryExec") {
                        set_text_once(&mut try_exec, &value);
                    } else if eq_str(&key, "OnlyShowIn") {
                        set_text_once(&mut only_show_in, &value);
                    } else if eq_str(&key, "NotShowIn") {
                        set_text_once(&mut not_show_in, &value);
                    } else if eq_str(&key, "NoDisplay") {
                        no_display = eq_ignore_case_str(&value, "true");
                    } else if eq_str(&key, "Hidden") {
                        hidden = eq_ignore_case_str(&value, "true");
                    } else if eq_str(&key, "Terminal") {
                        terminal = eq_ignore_case_str(&value, "true");
                    }
                },
            }
        }
        i = i + 1;
    }
    assert(lv.take(ls@.len() as int) =~= lv);
    let tv = str_chars(app_type.as_str());
    if hidden || no_display || !eq_str(&tv, "Application") || str_is_empty(name.as_str()) || str_is_empty(
        exec.as_str(),
    ) {
        return None;
    }
    if !desktop_visibility_allows(only_show_in.as_str(), not_show_in.as_str()) {
        return None;
    }
    let argv = match parse_exec_argv(exec.as_str()) {
        Some(a) => a,
        None => {
            return None;
        },
    };
    if argv.len() == 0 {
        return None;
    }
    let app = DesktopApp { id: owned(id), name, argv, icon, comment, terminal };
    Some(ParsedDesktopEntry { app, try_exec })
}

/// Rank of an app that matches (only meaningful when it does).
pub open spec fn rank_key(a: AppModel, q: Seq<char>) -> u8 {
    match match_rank(a, q) {
        Some(r) => r,
        None => 6,
    }
}

pub(crate) proof fn lemma_insert_ranked_elems(s: Seq<(u8, AppModel)>, x: (u8, AppModel))
    ensures
        insert_ranked(s, x).len() == s.len() + 1,
        forall|k: int|
            #![trigger insert_ranked(s, x)[k]]
            0 <= k < insert_ranked(s, x).len() ==> insert_ranked(s, x)[k] == x || exists|j: int|
                0 <= j < s.len() && insert_ranked(s, x)[k] == s[j],
        exists|k: int| 0 <= k < insert_ranked(s, x).len() && insert_ranked(s, x)[k] == x,
        forall|j: int|
            #![trigger s[j]]
            0 <= j < s.len() ==> exists|k: int|
                0 <= k < insert_ranked(s, x).len() && insert_ranked(s, x)[k] == s[j],
    decreases s.len(),
{
    let r = insert_ranked(s, x);
    if s.len() == 0 {
        assert(r[0] == x);
    } else if ranked_before(x, s[0]) {
        assert(r[0] == x);
        assert forall|k: int| #![trigger r[k]] 0 <= k < r.len() implies r[k] == x || exists|j: int|
            0 <= j < s.len() && r[k] == s[j] by {
            if k > 0 {
                assert(r[k] == s[k - 1]);
            }
        }
        assert forall|j: int| #![trigger s[j]] 0 <= j < s.len() implies exists|k: int|
            0 <= k < r.len() && r[k] == s[j] by {
            assert(r[j + 1] == s[j]);
        }
    } else {
        let t = insert_ranked(s.drop_first(), x);
        lemma_insert_ranked_elems(s.drop_first(), x);
        assert(r == seq![s[0]] + t);
        assert forall|k: int| #![trigger r[k]] 0 <= k < r.len() implies r[k] == x || exists|j: int|
            0 <= j < s.len() && r[k] == s[j] by {
            if k == 0 {
                assert(r[0] == s[0]);
            } else {
                assert(r[k] == t[k - 1]);
                if t[k - 1] != x {
                    let j = choose|j: int| 0 <= j < s.drop_first().len() && t[k - 1] == s.drop_first()[j];
                    assert(s[j + 1] == s.drop_first()[j]);
                }
            }
        }
        let kx = choose|k: int| 0 <= k < t.len() && t[k] == x;
        assert(r[kx + 1] == x);
        assert forall|j: int| #![trigger s[j]] 0 <= j < s.len() implies exists|k: int|
            0 <= k < r.len() && r[k] == s[j] by {
            if j == 0 {
                assert(r[0] == s[0]);
            } else {
                assert(s.drop_first()[j - 1] == s[j]);
                let k = choose|k: int| 0 <= k < t.len() && t[k] == s.drop_first()[j - 1];
                assert(r[k + 1] == t[k]);
            }
        }
    }
}

pub(crate) proof fn lemma_sort_ranked_elems(s: Seq<(u8, AppModel)>)
    ensures
        sort_ranked(s).len() == s.len(),
        forall|k: int|
            #![trigger sort_ranked(s)[k]]
            0 <= k < sort_ranked(s).len() ==> exists|j: int|
                0 <= j < s.len() && sort_ranked(s)[k] == s[j],
        forall|j: int|
            #![trigger s[j]]
            0 <= j < s.len() ==> exists|k: int|
                0 <= k < sort_ranked(s).len() && sort_ranked(s)[k] == s[j],
    decreases s.len(),
{
    if s.len() > 0 {
        let t = sort_ranked(s.drop_last());
        lemma_sort_ranked_elems(s.drop_last());
        lemma_insert_ranked_elems(t, s.last());
        let r = sort_ranked(s);
        assert forall|k: int| #![trigger r[k]] 0 <= k < r.len() implies exists|j: int| 0 <= j < s.len() && r[k] == s[j] by {
            if r[k] == s.last() {
                assert(s[s.len() - 1] == s.last());
            } else {
                let j1 = choose|j: int| 0 <= j < t.len() && r[k] == t[j];
                let j2 = choose|j: int| 0 <= j < s.drop_last().len() && t[j1] == s.drop_last()[j];
                assert(s[j2] == s.drop_last()[j2]);
            }
        }
        assert forall|j: int| #![trigger s[j]] 0 <= j < s.len() implies exists|k: int| 0 <= k < r.len() && r[k] == s[j] by {
            if j == s.len() - 1 {
                let k = choose|k: int| 0 <= k < r.len() && r[k] == s.last();
            } else {
                assert(s.drop_last()[j] == s[j]);
                let k1 = choose|k: int| 0 <= k < t.len() && t[k] == s.drop_last()[j];
                let k2 = choose|k: int| 0 <= k < r.len() && r[k] == t[k1];
            }
        }
    }
}

/// Pairs ordered by rank.
pub open spec fn ranks_ascending(s: Seq<(u8, AppModel)>) -> bool {
    forall|i: int, j: int| 0 <= i < j < s.len() ==> s[i].0 <= s[j].0
}

proof fn lemma_insert_ranked_ascending(s: Seq<(u8, AppModel)>, x: (u8, AppModel))
    requires
        ranks_ascending(s),
    ensures
        ranks_ascending(insert_ranked(s, x)),
    decreases s.len(),
{
    let r = insert_ranked(s, x);
    if s.len() == 0 {
    } else if ranked_before(x, s[0]) {
        assert forall|i: int, j: int| 0 <= i < j < r.len() implies r[i].0 <= r[j].0 by {
            if i == 0 {
                assert(r[j] == s[j - 1]);
                assert(s[0].0 <= s[j - 1].0 || j - 1 == 0);
            } else {
                assert(r[i] == s[i - 1]);
                assert(r[j] == s[j - 1]);
            }
        }
    } else {
        let t = insert_ranked(s.drop_first(), x);
        assert(ranks_ascending(s.drop_first())) by {
            assert forall|i: int, j: int| 0 <= i < j < s.drop_first().len() implies
                s.drop_first()[i].0 <= s.drop_first()[j].0 by {
                assert(s.drop_first()[i] == s[i + 1]);
                assert(s.drop_first()[j] == s[j + 1]);
            }
        }
        lemma_insert_ranked_ascending(s.drop_first(), x);
        lemma_insert_ranked_elems(s.drop_first(), x);
        assert(r == seq![s[0]] + t);
        assert forall|i: int, j: int| 0 <= i < j < r.len() implies r[i].0 <= r[j].0 by {
            if i == 0 {
                assert(r[j] == t[j - 1]);
                if t[j - 1] != x {
                    let q = choose|q: int| 0 <= q < s.drop_first().len() && t[j - 1] == s.drop_first()[q];
                    assert(s.drop_first()[q] == s[q + 1]);
                }
            } else {
                assert(r[i] == t[i - 1]);
                assert(r[j] == t[j - 1]);
            }
        }
    }
}

proof fn lemma_sort_ranked_ascending(s: Seq<(u8, AppModel)>)
    ensures
        ranks_ascending(sort_ranked(s)),
    decreases s.len(),
{
    if s.len() > 0 {
        lemma_sort_ranked_ascending(s.drop_last());
        lemma_insert_ranked_ascending(sort_ranked(s.drop_last()), s.last());
    }
}

pub(crate) proof fn lemma_rank_matches(apps: Seq<AppModel>, q: Seq<char>)
    ensures
        forall|k: int|
            #![trigger rank_matches(apps, q)[k]]
            0 <= k < rank_matches(apps, q).len() ==> {
                let p = rank_matches(apps, q)[k];
                &&& match_rank(p.1, q) == Some(p.0)
                &&& exists|j: int| 0 <= j < apps.len() && apps[j] == p.1
            },
        forall|j: int|
            #![trigger apps[j]]
            0 <= j < apps.len() && match_rank(apps[j], q) is Some ==> exists|k: int|
                0 <= k < rank_matches(apps, q).len() && rank_matches(apps, q)[k].1 == apps[j],
    decreases apps.len(),
{
    if apps.len() > 0 {
        let f = rank_matches(apps.drop_last(), q);
        lemma_rank_matches(apps.drop_last(), q);
        let r = rank_matches(apps, q);
        assert forall|k: int| #![trigger r[k]] 0 <= k < r.len() implies ({
            let p = r[k];
            &&& match_rank(p.1, q) == Some(p.0)
            &&& exists|j: int| 0 <= j < apps.len() && apps[j] == p.1
        }) by {
            if k < f.len() {
                assert(r[k] == f[k]);
                let j = choose|j: int| 0 <= j < apps.drop_last().len() && apps.drop_last()[j] == f[k].1;
                assert(apps[j] == apps.drop_last()[j]);
            } else {
                assert(apps[apps.len() - 1] == apps.last());
            }
        }
        assert forall|j: int| #![trigger apps[j]] 0 <= j < apps.len() && match_rank(apps[j], q) is Some implies exists|k: int|
            0 <= k < r.len() && r[k].1 == apps[j] by {
            if j < apps.len() - 1 {
                assert(apps.drop_last()[j] == apps[j]);
                let k = choose|k: int| 0 <= k < f.len() && f[k].1 == apps.drop_last()[j];
                assert(r[k] == f[k]);
            } else {
                assert(r[f.len() as int].1 == apps.last());
            }
        }
    }
}

pub(crate) proof fn lemma_first_per_key_elems(s: Seq<AppModel>)
    ensures
        forall|k: int|
            #![trigger first_per_key(s)[k]]
            0 <= k < first_per_key(s).len() ==> exists|j: int|
                0 <= j < s.len() && first_per_key(s)[k] == s[j],
    decreases s.len(),
{
    if s.len() > 0 {
        let d = first_per_key(s.drop_last());
        lemma_first_per_key_elems(s.drop_last());
        let r = first_per_key(s);
        assert forall|k: int| #![trigger r[k]] 0 <= k < r.len() implies exists|j: int|
            0 <= j < s.len() && r[k] == s[j] by {
            if k < d.len() {
                assert(r[k] == d[k]);
                let j = choose|j: int| 0 <= j < s.drop_last().len() && d[k] == s.drop_last()[j];
                assert(s[j] == s.drop_last()[j]);
            } else {
                assert(s[s.len() - 1] == s.last());
            }
        }
    }
}

proof fn lemma_first_per_key_distinct(s: Seq<AppModel>)
    ensures
        forall|a: int, b: int|
            0 <= a < b < first_per_key(s).len() ==> semantic_key(first_per_key(s)[a])
                != semantic_key(first_per_key(s)[b]),
    decreases s.len(),
{
    if s.len() > 0 {
        let d = first_per_key(s.drop_last());
        lemma_first_per_key_distinct(s.drop_last());
        lemma_first_per_key_elems(s.drop_last());
        let r = first_per_key(s);
        let dup = exists|j: int| 0 <= j < s.len() - 1 && semantic_key(s[j]) == semantic_key(s.last());
        assert forall|a: int, b: int| 0 <= a < b < r.len() implies semantic_key(r[a])
            != semantic_key(r[b]) by {
            if b < d.len() {
                assert(r[a] == d[a]);
                assert(r[b] == d[b]);
            } else {
                assert(!dup);
                assert(r[a] == d[a]);
                assert(r[b] == s.last());
                let j = choose|j: int| 0 <= j < s.drop_last().len() && d[a] == s.drop_last()[j];
                assert(s[j] == s.drop_last()[j]);
            }
        }
    }
}

proof fn lemma_first_per_key_covers(s: Seq<AppModel>)
    ensures
        forall|j: int|
            #![trigger s[j]]
            0 <= j < s.len() ==> exists|k: int|
                0 <= k < first_per_key(s).len() && semantic_key(first_per_key(s)[k])
                    == semantic_key(s[j]),
    decreases s.len(),
{
    if s.len() > 0 {
        let d = first_per_key(s.drop_last());
        lemma_first_per_key_covers(s.drop_last());
        let r = first_per_key(s);
        let dup = exists|j: int| 0 <= j < s.len() - 1 && semantic_key(s[j]) == semantic_key(s.last());
        assert forall|j: int| #![trigger s[j]] 0 <= j < s.len() implies exists|k: int|
            0 <= k < r.len() && semantic_key(r[k]) == semantic_key(s[j]) by {
            if j < s.len() - 1 {
                assert(s.drop_last()[j] == s[j]);
                let k = choose|k: int| 0 <= k < d.len() && semantic_key(d[k]) == semantic_key(s.drop_last()[j]);
                assert(r[k] == d[k]);
            } else if dup {
                let j2 = choose|j: int| 0 <= j < s.len() - 1 && semantic_key(s[j]) == semantic_key(s.last());
                assert(s.drop_last()[j2] == s[j2]);
                let k = choose|k: int| 0 <= k < d.len() && semantic_key(d[k]) == semantic_key(s.drop_last()[j2]);
                assert(r[k] == d[k]);
            } else {
                assert(r[d.len() as int] == s.last());
            }
        }
    }
}

proof fn lemma_first_per_key_ascending(s: Seq<AppModel>, q: Seq<char>)
    requires
        forall|i: int, j: int| 0 <= i < j < s.len() ==> rank_key(s[i], q) <= rank_key(s[j], q),
    ensures
        forall|i: int, j: int|
            0 <= i < j < first_per_key(s).len() ==> rank_key(first_per_key(s)[i], q) <= rank_key(
                first_per_key(s)[j],
                q,
            ),
    decreases s.len(),
{
    if s.len() > 0 {
        let d = first_per_key(s.drop_last());
        lemma_first_per_key_ascending(s.drop_last(), q);
        lemma_first_per_key_elems(s.drop_last());
        let r = first_per_key(s);
        assert forall|i: int, j: int| 0 <= i < j < r.len() implies rank_key(r[i], q) <= rank_key(
            r[j],
            q,
        ) by {
            assert(r[i] == d[i]);
            if j < d.len() {
                assert(r[j] == d[j]);
            } else {
                assert(r[j] == s.last());
                let m = choose|m: int| 0 <= m < s.drop_last().len() && d[i] == s.drop_last()[m];
                assert(s[m] == s.drop_last()[m]);
                assert(s[s.len() - 1] == s.last());
            }
        }
    }
}

/// Every Search result is one of the given apps and matches the query.
pub proof fn law_results_are_matching_inputs(apps: Seq<AppModel>, query: Seq<char>)
    ensures
        forall|k: int|
            #![trigger ranked_matches(apps, query)[k]]
            0 <= k < ranked_matches(apps, query).len() ==> {
                let a = ranked_matches(apps, query)[k];
                &&& match_rank(a, normalized(query)) is Some
                &&& exists|j: int| 0 <= j < apps.len() && apps[j] == a
            },
{
    let q = normalized(query);
    let rm = rank_matches(apps, q);
    let sr = sort_ranked(rm);
    let m = sr.map_values(|p: (u8, AppModel)| p.1);
    lemma_rank_matches(apps, q);
    lemma_sort_ranked_elems(rm);
    lemma_first_per_key_elems(m);
    let r = ranked_matches(apps, query);
    assert forall|k: int| #![trigger r[k]] 0 <= k < r.len() implies ({
        let a = r[k];
        &&& match_rank(a, q) is Some
        &&& exists|j: int| 0 <= j < apps.len() && apps[j] == a
    }) by {
        let i = choose|i: int| 0 <= i < m.len() && r[k] == m[i];
        let i2 = choose|j: int| 0 <= j < rm.len() && sr[i] == rm[j];
        assert(m[i] == sr[i].1);
        let p = rm[i2];
        assert(match_rank(p.1, q) == Some(p.0));
        let j = choose|j: int| 0 <= j < apps.len() && apps[j] == p.1;
    }
}

/// Better matches come first: ranks never go down along the results (an
/// exact name before a name prefix, before a name substring, before a fuzzy
/// name, before fuzzy secondary metadata).
pub proof fn law_results_rank_ascending(apps: Seq<AppModel>, query: Seq<char>)
    ensures
        forall|i: int, j: int|
            0 <= i < j < ranked_matches(apps, query).len() ==> rank_key(
                ranked_matches(apps, query)[i],
                normalized(query),
            ) <= rank_key(ranked_matches(apps, query)[j], normalized(query)),
{
    let q = normalized(query);
    let rm = rank_matches(apps, q);
    let sr = sort_ranked(rm);
    let m = sr.map_values(|p: (u8, AppModel)| p.1);
    lemma_rank_matches(apps, q);
    lemma_sort_ranked_elems(rm);
    lemma_sort_ranked_ascending(rm);
    assert forall|k: int| #![trigger sr[k]] 0 <= k < sr.len() implies match_rank(sr[k].1, q) == Some(sr[k].0) by {
        let j = choose|j: int| 0 <= j < rm.len() && sr[k] == rm[j];
    }
    assert forall|i: int, j: int| 0 <= i < j < m.len() implies rank_key(m[i], q) <= rank_key(
        m[j],
        q,
    ) by {
        assert(m[i] == sr[i].1);
        assert(m[j] == sr[j].1);
        assert(match_rank(sr[i].1, q) == Some(sr[i].0));
        assert(match_rank(sr[j].1, q) == Some(sr[j].0));
    }
    lemma_first_per_key_ascending(m, q);
}

/// No two Search results share a semantic identity (normalized name and
/// executable identity), and every matching app's identity is represented.
pub proof fn law_results_one_per_identity(apps: Seq<AppModel>, query: Seq<char>)
    ensures
        forall|a: int, b: int|
            0 <= a < b < ranked_matches(apps, query).len() ==> semantic_key(
                ranked_matches(apps, query)[a],
            ) != semantic_key(ranked_matches(apps, query)[b]),
        forall|j: int|
            #![trigger apps[j]]
            0 <= j < apps.len() && match_rank(apps[j], normalized(query)) is Some ==> exists|k: int|
                0 <= k < ranked_matches(apps, query).len() && semantic_key(
                    ranked_matches(apps, query)[k],
                ) == semantic_key(apps[j]),
{
    let q = normalized(query);
    let rm = rank_matches(apps, q);
    let sr = sort_ranked(rm);
    let m = sr.map_values(|p: (u8, AppModel)| p.1);
    lemma_rank_matches(apps, q);
    lemma_sort_ranked_elems(rm);
    lemma_first_per_key_distinct(m);
    lemma_first_per_key_covers(m);
    let r = ranked_matches(apps, query);
    assert forall|j: int| #![trigger apps[j]] 0 <= j < apps.len() && match_rank(apps[j], q) is Some implies exists|k: int|
        0 <= k < r.len() && semantic_key(r[k]) == semantic_key(apps[j]) by {
        let k1 = choose|k: int| 0 <= k < rm.len() && rm[k].1 == apps[j];
        let k2 = choose|k: int| 0 <= k < sr.len() && sr[k] == rm[k1];
        assert(m[k2] == sr[k2].1);
        let k3 = choose|k: int| 0 <= k < r.len() && semantic_key(r[k]) == semantic_key(m[k2]);
    }
}

/// Index of the first app with this desktop-file id, or `-1`.
pub open spec fn id_index(s: Seq<AppModel>, id: Seq<char>) -> int
    decreases s.len(),
{
    if s.len() == 0 {
        -1
    } else if id_index(s.drop_last(), id) >= 0 {
        id_index(s.drop_last(), id)
    } else if s.last().id == id {
        s.len() - 1
    } else {
        -1
    }
}

pub(crate) proof fn lemma_id_index(s: Seq<AppModel>, id: Seq<char>)
    ensures
        -1 <= id_index(s, id) < s.len(),
        id_index(s, id) >= 0 ==> s[id_index(s, id)].id == id,
        id_index(s, id) < 0 ==> forall|j: int| 0 <= j < s.len() ==> s[j].id != id,
        id_index(s, id) >= 0 ==> forall|j: int| 0 <= j < id_index(s, id) ==> s[j].id != id,
    decreases s.len(),
{
    if s.len() > 0 {
        lemma_id_index(s.drop_last(), id);
        assert forall|j: int| 0 <= j < s.len() - 1 implies s[j] == s.drop_last()[j] by {}
    }
}

/// Discovered apps with one entry per desktop-file id: a later entry
/// replaces the earlier one with its id (user entries override system ones).
pub open spec fn keep_last_per_id(s: Seq<AppModel>) -> Seq<AppModel>
    decreases s.len(),
{
    if s.len() == 0 {
        Seq::empty()
    } else {
        let d = keep_last_per_id(s.drop_last());
        let i = id_index(d, s.last().id);
        if i >= 0 {
            d.update(i, s.last())
        } else {
            d.push(s.last())
        }
    }
}

/// `x` inserted before the first app that sorts after it.
pub open spec fn insert_by_order(s: Seq<AppModel>, x: AppModel) -> Seq<AppModel>
    decreases s.len(),
{
    if s.len() == 0 {
        seq![x]
    } else if app_order(x, s[0]) < 0 {
        seq![x] + s
    } else {
        seq![s[0]] + insert_by_order(s.drop_first(), x)
    }
}

/// Apps in application order.
pub open spec fn sort_by_order(s: Seq<AppModel>) -> Seq<AppModel>
    decreases s.len(),
{
    if s.len() == 0 {
        Seq::empty()
    } else {
        insert_by_order(sort_by_order(s.drop_last()), s.last())
    }
}

/// The applications a scan yields from the entries it found, in the order
/// found: one per id (the last found wins), in application order.
pub open spec fn scanned_apps(found: Seq<AppModel>) -> Seq<AppModel> {
    sort_by_order(keep_last_per_id(found))
}

proof fn lemma_insert_by_order_at(s: Seq<AppModel>, x: AppModel, j: int)
    requires
        0 <= j <= s.len(),
        forall|q: int| 0 <= q < j ==> !(app_order(x, s[q]) < 0),
        j < s.len() ==> app_order(x, s[j]) < 0,
    ensures
        insert_by_order(s, x) == s.take(j).push(x) + s.skip(j),
    decreases s.len(),
{
    if s.len() == 0 {
        assert(s.take(j).push(x) + s.skip(j) =~= seq![x]);
    } else if j == 0 {
        assert(s.take(0).push(x) + s.skip(0) =~= seq![x] + s);
    } else {
        assert forall|q: int| 0 <= q < j - 1 implies !(app_order(x, s.drop_first()[q]) < 0) by {
            assert(s.drop_first()[q] == s[q + 1]);
        }
        lemma_insert_by_order_at(s.drop_first(), x, j - 1);
        assert(seq![s[0]] + (s.drop_first().take(j - 1).push(x) + s.drop_first().skip(j - 1))
            =~= s.take(j).push(x) + s.skip(j));
    }
}

fn find_id(v: &Vec<DesktopApp>, id: &str) -> (r: Option<usize>)
    ensures
        match r {
            Some(i) => i as int == id_index(app_views(v@), id@) && i < v@.len(),
            None => id_index(app_views(v@), id@) < 0,
        },
{
    let ghost av = app_views(v@);
    proof {
        lemma_id_index(av, id@);
    }
    let idv = str_chars(id);
    let mut i: usize = 0;
    while i < v.len()
        invariant
            av == app_views(v@),
            i <= v@.len(),
            idv@ == id@,
            forall|j: int| 0 <= j < i ==> av[j].id != id@,
            -1 <= id_index(av, id@) < av.len(),
            id_index(av, id@) >= 0 ==> av[id_index(av, id@)].id == id@,
            id_index(av, id@) >= 0 ==> forall|j: int| 0 <= j < id_index(av, id@) ==> av[j].id != id@,
            id_index(av, id@) < 0 ==> forall|j: int| 0 <= j < av.len() ==> av[j].id != id@,
        decreases v@.len() - i,
    {
        let w = str_chars(v[i].id.as_str());
        assert(av[i as int] == v@[i as int]@);
        if chars_eq(&w, &idv) {
            proof {
                let k = id_index(av, id@);
                if k < 0 || k > i {
                    assert(av[i as int].id != id@);
                } else if k < i {
                    assert(av[k].id != id@);
                }
            }
            return Some(i);
        }
        i = i + 1;
    }
    None
}

fn order_insertion_point(v: &Vec<DesktopApp>, x: &DesktopApp) -> (j: usize)
    ensures
        j <= v@.len(),
        forall|q: int| 0 <= q < j ==> !(app_order(x@, app_views(v@)[q]) < 0),
        j < v@.len() ==> app_order(x@, app_views(v@)[j as int]) < 0,
{
    let mut j: usize = 0;
    while j < v.len()
        invariant
            j <= v@.len(),
            forall|q: int| 0 <= q < j ==> !(app_order(x@, app_views(v@)[q]) < 0),
        decreases v@.len() - j,
    {
        if app_order_exec(x, &v[j]) < 0 {
            return j;
        }
        j = j + 1;
    }
    j
}

/// Merge the entries a scan found (in the order found) and sort them:
/// one application per desktop-file id, the last found winning, in
/// application order.
pub fn sorted_unique_apps(found: Vec<DesktopApp>) -> (r: Vec<DesktopApp>)
    ensures
        app_views(r@) == scanned_apps(app_views(found@)),
{
    let ghost fv = app_views(found@);
    let mut rest = found;
    let mut kept: Vec<DesktopApp> = Vec::new();
    let n = rest.len();
    let mut k: usize = 0;
    assert(fv.take(0) =~= Seq::<AppModel>::empty());
    assert(app_views(kept@) =~= Seq::<AppModel>::empty());
    assert(app_views(rest@) =~= fv.skip(0));
    while rest.len() > 0
        invariant
            n == fv.len(),
            k <= n,
            app_views(rest@) == fv.skip(k as int),
            app_views(kept@) == keep_last_per_id(fv.take(k as int)),
        decreases rest@.len(),
    {
        let ghost before = rest@;
        let a = rest.remove(0);
        assert(a == before[0]);
        assert(app_views(before)[0] == before[0]@);
        assert(app_views(before).len() == before.len());
        assert(k < fv.len());
        assert(fv.skip(k as int)[0] == fv[k as int]);
        assert(app_views(before)[0] == fv.skip(k as int)[0]);
        assert(a@ == fv[k as int]);
        assert(app_views(rest@) =~= fv.skip(k + 1)) by {
            assert forall|q: int| 0 <= q < rest@.len() implies app_views(rest@)[q] == fv.skip(
                k + 1,
            )[q] by {
                assert(rest@[q] == before[q + 1]);
                assert(app_views(rest@)[q] == rest@[q]@);
                assert(app_views(before)[q + 1] == before[q + 1]@);
                assert(app_views(before)[q + 1] == fv.skip(k as int)[q + 1]);
                assert(fv.skip(k as int)[q + 1] == fv[k + q + 1]);
                assert(fv.skip(k + 1)[q] == fv[k + 1 + q]);
            }
        }
        assert(fv.take(k + 1).drop_last() =~= fv.take(k as int));
        assert(fv.take(k + 1).last() == fv[k as int]);
        let ghost kv = app_views(kept@);
        match find_id(&kept, a.id.as_str()) {
            Some(i) => {
                kept.set(i, a);
                assert(app_views(kept@) =~= kv.update(i as int, fv[k as int]));
            },
            None => {
                kept.push(a);
                assert(app_views(kept@) =~= kv.push(fv[k as int]));
            },
        }
        k = k + 1;
    }
    assert(fv.take(n as int) =~= fv);
    let ghost uv = app_views(kept@);
    let m = kept.len();
    let mut sorted: Vec<DesktopApp> = Vec::new();
    let mut j: usize = 0;
    assert(uv.take(0) =~= Seq::<AppModel>::empty());
    assert(app_views(sorted@) =~= Seq::<AppModel>::empty());
    assert(app_views(kept@) =~= uv.skip(0));
    while kept.len() > 0
        invariant
            m == uv.len(),
            j <= m,
            app_views(kept@) == uv.skip(j as int),
            app_views(sorted@) == sort_by_order(uv.take(j as int)),
        decreases kept@.len(),
    {
        let ghost before = kept@;
        let a = kept.remove(0);
        assert(a == before[0]);
        assert(app_views(before)[0] == before[0]@);
        assert(app_views(before).len() == before.len());
        assert(j < uv.len());
        assert(uv.skip(j as int)[0] == uv[j as int]);
        assert(app_views(before)[0] == uv.skip(j as int)[0]);
        assert(a@ == uv[j as int]);
        assert(app_views(kept@) =~= uv.skip(j + 1)) by {
            assert forall|q: int| 0 <= q < kept@.len() implies app_views(kept@)[q] == uv.skip(
                j + 1,
            )[q] by {
                assert(kept@[q] == before[q + 1]);
                assert(app_views(kept@)[q] == kept@[q]@);
                assert(app_views(before)[q + 1] == before[q + 1]@);
                assert(app_views(before)[q + 1] == uv.skip(j as int)[q + 1]);
                assert(uv.skip(j as int)[q + 1] == uv[j + q + 1]);
                assert(uv.skip(j + 1)[q] == uv[j + 1 + q]);
            }
        }
        assert(uv.take(j + 1).drop_last() =~= uv.take(j as int));
        assert(uv.take(j + 1).last() == uv[j as int]);
        let ghost sv = app_views(sorted@);
        let p = order_insertion_point(&sorted, &a);
        proof {
            lemma_insert_by_order_at(sv, a@, p as int);
        }
        sorted.insert(p, a);
        assert(app_views(sorted@) =~= sv.take(p as int).push(uv[j as int]) + sv.skip(p as int));
        j = j + 1;
    }
    assert(uv.take(m as int) =~= uv);
    sorted
}

/// `base` joined with the relative path `rel` as `Path::join` does it: a
/// `/` between them unless `base` is empty or already ends with one.
pub open spec fn path_join(base: Seq<char>, rel: Seq<char>) -> Seq<char> {
    if base.len() == 0 || base.last() == '/' {
        base + rel
    } else {
        base + "/"@ + rel
    }
}

/// `dirs` with `d` appended unless it already holds it.
pub open spec fn push_unique(dirs: Seq<Seq<char>>, d: Seq<char>) -> Seq<Seq<char>> {
    if dirs.contains(d) {
        dirs
    } else {
        dirs.push(d)
    }
}

/// The first occurrence of each directory, in order.
pub open spec fn unique_in_order(ds: Seq<Seq<char>>) -> Seq<Seq<char>>
    decreases ds.len(),
{
    if ds.len() == 0 {
        Seq::empty()
    } else {
        push_unique(unique_in_order(ds.drop_last()), ds.last())
    }
}

/// Directories searched for desktop entries, before duplicates go: the two
/// system directories, `applications` under each `:`-separated data
/// directory, then the user's `~/.local/share/applications` (`/tmp` when
/// no home is set).
pub open spec fn application_dir_candidates(data_dirs: Option<Seq<char>>, home: Option<Seq<char>>) -> Seq<
    Seq<char>,
> {
    let extra = match data_dirs {
        Some(d) => split_on(d, ':').map_values(|p: Seq<char>| path_join(p, "applications"@)),
        None => Seq::empty(),
    };
    let h = match home {
        Some(h) => h,
        None => "/tmp"@,
    };
    seq!["/usr/share/applications"@, "/usr/local/share/applications"@] + extra + seq![
        path_join(h, ".local/share/applications"@),
    ]
}

fn path_join_chars(base: &[char], rel: &str) -> (r: Vec<char>)
    ensures
        r@ == path_join(base@, rel@),
{
    let mut out: Vec<char> = Vec::new();
    crate::text::push_chars(&mut out, base);
    if !(base.len() == 0 || base[base.len() - 1] == '/') {
        out.push('/');
    }
    crate::text::push_str_chars(&mut out, rel);
    proof {
        reveal_strlit("/");
    }
    assert(out@ =~= path_join(base@, rel@));
    out
}

fn push_unique_dir(dirs: &mut Vec<Vec<char>>, d: Vec<char>)
    ensures
        views(final(dirs)@) == push_unique(views(old(dirs)@), d@),
{
    let mut i: usize = 0;
    while i < dirs.len()
        invariant
            i <= dirs@.len(),
            forall|q: int| 0 <= q < i ==> dirs@[q]@ != d@,
        decreases dirs@.len() - i,
    {
        if chars_eq(&dirs[i], &d) {
            assert(views(dirs@)[i as int] == d@);
            assert(views(dirs@).contains(d@));
            return;
        }
        i = i + 1;
    }
    assert(!views(dirs@).contains(d@)) by {
        if views(dirs@).contains(d@) {
            let q = choose|q: int| 0 <= q < views(dirs@).len() && views(dirs@)[q] == d@;
            assert(dirs@[q]@ == d@);
        }
    }
    let ghost before = views(dirs@);
    dirs.push(d);
    assert(views(dirs@) =~= before.push(d@));
}

/// Directories to scan for desktop entries, from the `XDG_DATA_DIRS` and
/// `HOME` values as read: each appears once, at its first place among the
/// candidates. Two directories are the same when their texts are equal.
pub fn application_dirs_from_data_dirs(data_dirs: Option<&str>, home: Option<&str>) -> (r: Vec<
    String,
>)
    ensures
        string_views(r@) == unique_in_order(
            application_dir_candidates(crate::opt_view(data_dirs), crate::opt_view(home)),
        ),
{
    let ghost cands = application_dir_candidates(crate::opt_view(data_dirs), crate::opt_view(home));
    let mut c: Vec<Vec<char>> = Vec::new();
    c.push(str_chars("/usr/share/applications"));
    c.push(str_chars("/usr/local/share/applications"));
    let ghost extra: Seq<Seq<char>> = match crate::opt_view(data_dirs) {
        Some(d) => split_on(d, ':').map_values(|p: Seq<char>| path_join(p, "applications"@)),
        None => Seq::empty(),
    };
    if let Some(d) = data_dirs {
        let parts = split_on_chars(&str_chars(d), ':');
        let mut k: usize = 0;
        while k < parts.len()
            invariant
                k <= parts@.len(),
                views(parts@) == split_on(d@, ':'),
                extra == split_on(d@, ':').map_values(|p: Seq<char>| path_join(p, "applications"@)),
                views(c@) == seq!["/usr/share/applications"@, "/usr/local/share/applications"@]
                    + extra.take(k as int),
            decreases parts@.len() - k,
        {
            let j = path_join_chars(&parts[k], "applications");
            let ghost before = views(c@);
            c.push(j);
            assert(views(c@) =~= before.push(j@));
            assert(extra.take(k + 1) =~= extra.take(k as int).push(extra[k as int]));
            k = k + 1;
        }
        assert(extra.take(k as int) =~= extra);
    } else {
        assert(views(c@) =~= seq!["/usr/share/applications"@, "/usr/local/share/applications"@]
            + extra);
    }
    let hv = match home {
        Some(h) => str_chars(h),
        None => str_chars("/tmp"),
    };
    let last = path_join_chars(&hv, ".local/share/applications");
    let ghost before = views(c@);
    c.push(last);
    assert(views(c@) =~= before.push(last@));
    assert(views(c@) =~= cands);
    let mut uniq: Vec<Vec<char>> = Vec::new();
    let mut i: usize = 0;
    assert(cands.take(0) =~= Seq::<Seq<char>>::empty());
    while i < c.len()
        invariant
            i <= c@.len(),
            views(c@) == cands,
            views(uniq@) == unique_in_order(cands.take(i as int)),
        decreases c@.len() - i,
    {
        push_unique_dir(&mut uniq, c[i].clone());
        assert(cands.take(i + 1).drop_last() =~= cands.take(i as int));
        i = i + 1;
    }
    assert(cands.take(i as int) =~= cands);
    let mut out: Vec<String> = Vec::new();
    let mut q: usize = 0;
    while q < uniq.len()
        invariant
            q <= uniq@.len(),
            string_views(out@) == views(uniq@).take(q as int),
        decreases uniq@.len() - q,
    {
        let ghost before = string_views(out@);
        out.push(chars_to_string(&uniq[q]));
        assert(string_views(out@) =~= before.push(uniq@[q as int]@));
        assert(views(uniq@).take(q + 1) =~= views(uniq@).take(q as int).push(uniq@[q as int]@));
        q = q + 1;
    }
    assert(views(uniq@).take(q as int) =~= views(uniq@));
    out
}

} // verus!
