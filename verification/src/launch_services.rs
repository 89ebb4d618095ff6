//! Launch Services: registered `.app` bundles (one per bundle id), the file
//! associations (one per extension) and the bundle search paths.
use vstd::prelude::*;

use crate::text::{chars_eq, concat2, owned, str_chars, str_is_empty};

verus! {

/// A registered application bundle.
#[derive(Debug, Clone)]
pub struct AppBundle {
    pub bundle_id: String,
    pub name: String,
    pub version: String,
    pub path: String,
    pub entrypoint: String,
    pub supported_types: Vec<String>,
    pub permissions: Vec<String>,
}

/// Which application opens an extension, with an optional user override.
#[derive(Debug, Clone)]
pub struct FileAssociation {
    pub extension: String,
    pub default_app: String,
    pub user_override: Option<String>,
}

/// An association as texts: extension, default application, override.
pub open spec fn association_view(a: FileAssociation) -> (Seq<char>, Seq<char>, Option<Seq<char>>) {
    (
        a.extension@,
        a.default_app@,
        match a.user_override {
            Some(o) => Some(o@),
            None => None,
        },
    )
}

/// The associations every session starts with (extension, application).
pub open spec fn default_association_table() -> Seq<(Seq<char>, Seq<char>)> {
    seq![
        ("txt"@, "com.slopos.textedit"@),
        ("rtf"@, "com.slopos.textedit"@),
        ("md"@, "com.slopos.textedit"@),
        ("png"@, "com.slopos.imageviewer"@),
        ("jpg"@, "com.slopos.imageviewer"@),
        ("jpeg"@, "com.slopos.imageviewer"@),
        ("gif"@, "com.slopos.imageviewer"@),
        ("zip"@, "com.slopos.archiveutility"@),
        ("pdf"@, "com.slopos.textedit"@),
    ]
}

/// Search paths for a home directory: `/Applications`,
/// `/User/Applications`, then `{home}/Applications` for a non-empty home.
pub open spec fn default_search_paths(home: Option<Seq<char>>) -> Seq<Seq<char>> {
    let base = seq!["/Applications"@, "/User/Applications"@];
    match home {
        Some(h) => if h.len() > 0 {
            base.push(h + "/Applications"@)
        } else {
            base
        },
        None => base,
    }
}

/// Index of the first bundle with this id, or `-1`.
pub open spec fn bundle_index(s: Seq<AppBundle>, id: Seq<char>) -> int
    decreases s.len(),
{
    if s.len() == 0 {
        -1
    } else if bundle_index(s.drop_last(), id) >= 0 {
        bundle_index(s.drop_last(), id)
    } else if s.last().bundle_id@ == id {
        s.len() - 1
    } else {
        -1
    }
}

pub proof fn lemma_bundle_index(s: Seq<AppBundle>, id: Seq<char>)
    ensures
        -1 <= bundle_index(s, id) < s.len(),
        bundle_index(s, id) >= 0 ==> s[bundle_index(s, id)].bundle_id@ == id,
        bundle_index(s, id) < 0 ==> forall|j: int| 0 <= j < s.len() ==> s[j].bundle_id@ != id,
        bundle_index(s, id) >= 0 ==> forall|j: int|
            0 <= j < bundle_index(s, id) ==> s[j].bundle_id@ != id,
    decreases s.len(),
{
    if s.len() > 0 {
        lemma_bundle_index(s.drop_last(), id);
        assert forall|j: int| 0 <= j < s.len() - 1 implies s[j] == s.drop_last()[j] by {}
    }
}

/// Index of the association for an extension, or `-1`.
pub open spec fn association_index(s: Seq<FileAssociation>, ext: Seq<char>) -> int
    decreases s.len(),
{
    if s.len() == 0 {
        -1
    } else if association_index(s.drop_last(), ext) >= 0 {
        association_index(s.drop_last(), ext)
    } else if s.last().extension@ == ext {
        s.len() - 1
    } else {
        -1
    }
}

pub proof fn lemma_association_index(s: Seq<FileAssociation>, ext: Seq<char>)
    ensures
        -1 <= association_index(s, ext) < s.len(),
        association_index(s, ext) >= 0 ==> s[association_index(s, ext)].extension@ == ext,
        association_index(s, ext) < 0 ==> forall|j: int|
            0 <= j < s.len() ==> s[j].extension@ != ext,
    decreases s.len(),
{
    if s.len() > 0 {
        lemma_association_index(s.drop_last(), ext);
        assert forall|j: int| 0 <= j < s.len() - 1 implies s[j] == s.drop_last()[j] by {}
    }
}

/// No bundle id occurs twice.
pub open spec fn bundle_ids_distinct(s: Seq<AppBundle>) -> bool {
    forall|i: int, j: int| 0 <= i < j < s.len() ==> s[i].bundle_id@ != s[j].bundle_id@
}

/// Bundles after registering `b`: it replaces the bundle with its id, or is
/// appended.
pub open spec fn registered(s: Seq<AppBundle>, b: AppBundle) -> Seq<AppBundle> {
    let i = bundle_index(s, b.bundle_id@);
    if i >= 0 {
        s.update(i, b)
    } else {
        s.push(b)
    }
}

/// A registered bundle is what its id then finds, and every other id finds
/// what it found before.
pub proof fn law_register_then_lookup(s: Seq<AppBundle>, b: AppBundle, other: Seq<char>)
    requires
        other != b.bundle_id@,
    ensures
        bundle_index(registered(s, b), b.bundle_id@) >= 0,
        registered(s, b)[bundle_index(registered(s, b), b.bundle_id@)] == b,
        bundle_index(registered(s, b), other) == bundle_index(s, other),
        bundle_index(s, other) >= 0 ==> registered(s, b)[bundle_index(s, other)] == s[bundle_index(
            s,
            other,
        )],
{
    let id = b.bundle_id@;
    let t = registered(s, b);
    lemma_bundle_index(s, id);
    lemma_bundle_index(t, id);
    lemma_bundle_index(s, other);
    lemma_bundle_index(t, other);
    let i = bundle_index(s, id);
    let k = bundle_index(t, id);
    if i >= 0 {
        assert(t[i].bundle_id@ == id);
        if k > i {
            assert(t[i].bundle_id@ != id);
        }
        if k >= 0 && k < i {
            assert(t[k] == s[k]);
        }
    } else {
        assert(t[s.len() as int].bundle_id@ == id);
        if k >= 0 && k < s.len() {
            assert(t[k] == s[k]);
        }
    }
    let p = bundle_index(s, other);
    let q = bundle_index(t, other);
    assert forall|j: int| 0 <= j < s.len() implies (t[j].bundle_id@ == other) == (s[j].bundle_id@
        == other) by {
        if i >= 0 && j == i {
            assert(s[i].bundle_id@ == id);
        }
    }
    if i < 0 {
        assert(t[s.len() as int].bundle_id@ != other);
    }
    if p >= 0 {
        assert(t[p].bundle_id@ == other);
        if q >= 0 && q < p {
            assert(s[q].bundle_id@ != other);
        }
    } else {
        if q >= 0 {
            assert(t[q].bundle_id@ == other);
            if q < s.len() {
                assert(s[q].bundle_id@ != other);
            }
        }
    }
}

/// Launch Services state.
pub struct LaunchServices {
    bundles: Vec<AppBundle>,
    associations: Vec<FileAssociation>,
    search_paths: Vec<String>,
}

impl LaunchServices {
    #[verifier::type_invariant]
    closed spec fn keyed(self) -> bool {
        bundle_ids_distinct(self.bundles@)
    }

    /// Registered bundles, in registration order.
    pub closed spec fn bundles_view(self) -> Seq<AppBundle> {
        self.bundles@
    }

    /// File associations.
    pub closed spec fn associations_view(self) -> Seq<FileAssociation> {
        self.associations@
    }

    /// Bundle search paths.
    pub closed spec fn search_paths_view(self) -> Seq<Seq<char>> {
        self.search_paths@.map_values(|p: String| p@)
    }

    /// Fresh services for a user with home directory `home`: no bundles,
    /// the default associations (no overrides), the default search paths.
    pub fn new(home: Option<&str>) -> (r: Self)
        ensures
            r.bundles_view() == Seq::<AppBundle>::empty(),
            r.associations_view().len() == default_association_table().len(),
            forall|i: int|
                0 <= i < default_association_table().len() ==> association_view(
                    #[trigger] r.associations_view()[i],
                ) == (default_association_table()[i].0, default_association_table()[i].1, None::<
                    Seq<char>,
                >),
            r.search_paths_view() == default_search_paths(
                match home {
                    Some(h) => Some(h@),
                    None => None,
                },
            ),
    {
        let mut search_paths: Vec<String> = Vec::new();
        search_paths.push(owned("/Applications"));
        search_paths.push(owned("/User/Applications"));
        match home {
            Some(h) => {
                if !str_is_empty(h) {
                    search_paths.push(concat2(h, "/Applications"));
                }
            },
            None => {},
        }
        let ghost hv = match home {
            Some(h) => Some(h@),
            None => None::<Seq<char>>,
        };
        assert(search_paths@.map_values(|p: String| p@) =~= default_search_paths(hv));
        let table: [(&str, &str); 9] = [
            ("txt", "com.slopos.textedit"),
            ("rtf", "com.slopos.textedit"),
            ("md", "com.slopos.textedit"),
            ("png", "com.slopos.imageviewer"),
            ("jpg", "com.slopos.imageviewer"),
            ("jpeg", "com.slopos.imageviewer"),
            ("gif", "com.slopos.imageviewer"),
            ("zip", "com.slopos.archiveutility"),
            ("pdf", "com.slopos.textedit"),
        ];
        proof {
            reveal_strlit("txt");
            reveal_strlit("rtf");
            reveal_strlit("md");
            reveal_strlit("png");
            reveal_strlit("jpg");
            reveal_strlit("jpeg");
            reveal_strlit("gif");
            reveal_strlit("zip");
            reveal_strlit("pdf");
        }
        let ghost tv = default_association_table();
        assert(forall|i: int| 0 <= i < 9 ==> table@[i].0@ == tv[i].0 && table@[i].1@ == tv[i].1);
        let mut associations: Vec<FileAssociation> = Vec::new();
        let mut i: usize = 0;
        while i < 9
            invariant
                i <= 9,
                tv == default_association_table(),
                forall|q: int| 0 <= q < 9 ==> table@[q].0@ == tv[q].0 && table@[q].1@ == tv[q].1,
                associations@.len() == i,
                forall|q: int|
                    0 <= q < i ==> association_view(#[trigger] associations@[q]) == (
                        tv[q].0,
                        tv[q].1,
                        None::<Seq<char>>,
                    ),
            decreases 9 - i,
        {
            let (ext, app) = table[i];
            associations.push(
                FileAssociation { extension: owned(ext), default_app: owned(app), user_override: None },
            );
            i = i + 1;
        }
        LaunchServices { bundles: Vec::new(), associations, search_paths }
    }

    /// The bundle search paths.
    pub fn search_paths(&self) -> (r: &Vec<String>)
        ensures
            r@.map_values(|p: String| p@) == self.search_paths_view(),
    {
        &self.search_paths
    }

    fn find_bundle(&self, id: &str) -> (r: Option<usize>)
        ensures
            match r {
                Some(i) => i as int == bundle_index(self.bundles_view(), id@) && i
                    < self.bundles_view().len(),
                None => bundle_index(self.bundles_view(), id@) < 0,
            },
    {
        proof {
            use_type_invariant(self);
            lemma_bundle_index(self.bundles@, id@);
        }
        let idv = str_chars(id);
        let mut i: usize = 0;
        while i < self.bundles.len()
            invariant
                i <= self.bundles@.len(),
                idv@ == id@,
                forall|j: int| 0 <= j < i ==> self.bundles@[j].bundle_id@ != id@,
                -1 <= bundle_index(self.bundles@, id@) < self.bundles@.len(),
                bundle_index(self.bundles@, id@) >= 0 ==> self.bundles@[bundle_index(
                    self.bundles@,
                    id@,
                )].bundle_id@ == id@,
                bundle_index(self.bundles@, id@) >= 0 ==> forall|j: int|
                    0 <= j < bundle_index(self.bundles@, id@) ==> self.bundles@[j].bundle_id@
                        != id@,
                bundle_index(self.bundles@, id@) < 0 ==> forall|j: int|
                    0 <= j < self.bundles@.len() ==> self.bundles@[j].bundle_id@ != id@,
            decreases self.bundles@.len() - i,
        {
            let bv = str_chars(self.bundles[i].bundle_id.as_str());
            if chars_eq(&bv, &idv) {
                proof {
                    let k = bundle_index(self.bundles@, id@);
                    if k < 0 || k > i {
                        assert(self.bundles@[i as int].bundle_id@ != id@);
                    } else if k < i {
                        assert(self.bundles@[k].bundle_id@ != id@);
                    }
                }
                return Some(i);
            }
            i = i + 1;
        }
        None
    }

    fn take_bundles(&mut self) -> (r: Vec<AppBundle>)
        ensures
            r@ == old(self).bundles_view(),
            final(self).bundles_view() == Seq::<AppBundle>::empty(),
            final(self).associations_view() == old(self).associations_view(),
            final(self).search_paths_view() == old(self).search_paths_view(),
    {
        proof {
            use_type_invariant(&*self);
        }
        let mut v: Vec<AppBundle> = Vec::new();
        std::mem::swap(&mut v, &mut self.bundles);
        v
    }

    /// Register a bundle, replacing the one with the same id.
    pub fn register_bundle(&mut self, bundle: AppBundle)
        ensures
            final(self).bundles_view() == registered(old(self).bundles_view(), bundle),
            final(self).associations_view() == old(self).associations_view(),
            final(self).search_paths_view() == old(self).search_paths_view(),
    {
        proof {
            use_type_invariant(&*self);
            lemma_bundle_index(self.bundles@, bundle.bundle_id@);
        }
        match self.find_bundle(bundle.bundle_id.as_str()) {
            Some(i) => {
                assert(bundle_ids_distinct(self.bundles@.update(i as int, bundle)));
                let mut v = self.take_bundles();
                v.set(i, bundle);
                self.bundles = v;
            },
            None => {
                assert(bundle_ids_distinct(self.bundles@.push(bundle)));
                let mut v = self.take_bundles();
                v.push(bundle);
                self.bundles = v;
            },
        }
    }

    /// Forget every registered bundle (before a rescan).
    pub fn clear_bundles(&mut self)
        ensures
            final(self).bundles_view() == Seq::<AppBundle>::empty(),
            final(self).associations_view() == old(self).associations_view(),
            final(self).search_paths_view() == old(self).search_paths_view(),
    {
        let _ = self.take_bundles();
    }

    /// The bundle to launch for an id.
    pub fn launch_app(&self, bundle_id: &str) -> (r: Option<&AppBundle>)
        ensures
            match r {
                Some(b) => bundle_index(self.bundles_view(), bundle_id@) >= 0 && *b
                    == self.bundles_view()[bundle_index(self.bundles_view(), bundle_id@)],
                None => bundle_index(self.bundles_view(), bundle_id@) < 0,
            },
    {
        self.bundle_for_id(bundle_id)
    }

    /// The bundle registered under an id.
    pub fn bundle_for_id(&self, bundle_id: &str) -> (r: Option<&AppBundle>)
        ensures
            match r {
                Some(b) => bundle_index(self.bundles_view(), bundle_id@) >= 0 && *b
                    == self.bundles_view()[bundle_index(self.bundles_view(), bundle_id@)],
                None => bundle_index(self.bundles_view(), bundle_id@) < 0,
            },
    {
        match self.find_bundle(bundle_id) {
            Some(i) => Some(&self.bundles[i]),
            None => None,
        }
    }

    /// The application that opens an extension: the user's override when
    /// set, else the default.
    pub fn app_for_extension(&self, extension: &str) -> (r: Option<&str>)
        ensures
            ({
                let s = self.associations_view();
                let i = association_index(s, extension@);
                match r {
                    Some(a) => i >= 0 && a@ == match s[i].user_override {
                        Some(o) => o@,
                        None => s[i].default_app@,
                    },
                    None => i < 0,
                }
            }),
    {
        proof {
            lemma_association_index(self.associations@, extension@);
        }
        let ev = str_chars(extension);
        let mut found: Option<usize> = None;
        let mut i: usize = 0;
        while i < self.associations.len()
            invariant
                i <= self.associations@.len(),
                ev@ == extension@,
                found matches Some(k) ==> k == association_index(
                    self.associations@.take(i as int),
                    extension@,
                ),
                found is None ==> association_index(self.associations@.take(i as int), extension@)
                    < 0,
                found matches Some(k) ==> k < i,
            decreases self.associations@.len() - i,
        {
            let ghost t = self.associations@.take(i + 1);
            assert(t.drop_last() =~= self.associations@.take(i as int));
            assert(t.last() == self.associations@[i as int]);
            if found.is_none() {
                let av = str_chars(self.associations[i].extension.as_str());
                if chars_eq(&av, &ev) {
                    found = Some(i);
                }
            }
            i = i + 1;
        }
        assert(self.associations@.take(self.associations@.len() as int) =~= self.associations@);
        match found {
            Some(k) => {
                let a = &self.associations[k];
                match &a.user_override {
                    Some(o) => Some(o.as_str()),
                    None => Some(a.default_app.as_str()),
                }
            },
            None => None,
        }
    }
}

/// A bundle as a desktop shortcut: its name and bundle id.
pub open spec fn shortcut_pairs(s: Seq<AppBundle>) -> Seq<(Seq<char>, Seq<char>)> {
    Seq::new(s.len(), |i: int| (s[i].name@, s[i].bundle_id@))
}

/// `x` placed before the first shortcut whose name sorts after its own.
pub open spec fn insert_by_name(s: Seq<(Seq<char>, Seq<char>)>, x: (Seq<char>, Seq<char>)) -> Seq<
    (Seq<char>, Seq<char>),
>
    decreases s.len(),
{
    if s.len() == 0 {
        seq![x]
    } else if crate::text::lex_less(x.0, s[0].0) {
        seq![x] + s
    } else {
        seq![s[0]] + insert_by_name(s.drop_first(), x)
    }
}

/// Shortcuts in name order; equal names keep their registration order.
pub open spec fn sort_by_name(s: Seq<(Seq<char>, Seq<char>)>) -> Seq<(Seq<char>, Seq<char>)>
    decreases s.len(),
{
    if s.len() == 0 {
        Seq::empty()
    } else {
        insert_by_name(sort_by_name(s.drop_last()), s.last())
    }
}

/// The desktop's application shortcuts: the first six bundles by name.
pub open spec fn desktop_shortcuts_of(bundles: Seq<AppBundle>) -> Seq<(Seq<char>, Seq<char>)> {
    let t = sort_by_name(shortcut_pairs(bundles));
    if t.len() > 6 {
        t.take(6)
    } else {
        t
    }
}

/// Texts of string pairs.
pub open spec fn string_pair_views(v: Seq<(String, String)>) -> Seq<(Seq<char>, Seq<char>)> {
    Seq::new(v.len(), |i: int| (v[i].0@, v[i].1@))
}

proof fn lemma_insert_by_name_at(s: Seq<(Seq<char>, Seq<char>)>, x: (Seq<char>, Seq<char>), j: int)
    requires
        0 <= j <= s.len(),
        forall|q: int| 0 <= q < j ==> !crate::text::lex_less(x.0, #[trigger] s[q].0),
        j < s.len() ==> crate::text::lex_less(x.0, s[j].0),
    ensures
        insert_by_name(s, x) == s.take(j).push(x) + s.skip(j),
    decreases s.len(),
{
    if s.len() == 0 {
        assert(s.take(j).push(x) + s.skip(j) =~= seq![x]);
    } else if j == 0 {
        assert(s.take(0).push(x) + s.skip(0) =~= seq![x] + s);
    } else {
        assert forall|q: int| 0 <= q < j - 1 implies !crate::text::lex_less(
            x.0,
            #[trigger] s.drop_first()[q].0,
        ) by {
            assert(s.drop_first()[q] == s[q + 1]);
        }
        lemma_insert_by_name_at(s.drop_first(), x, j - 1);
        assert(seq![s[0]] + (s.drop_first().take(j - 1).push(x) + s.drop_first().skip(j - 1))
            =~= s.take(j).push(x) + s.skip(j));
    }
}

fn name_insertion_point(v: &Vec<(String, String)>, name: &[char]) -> (j: usize)
    ensures
        j <= v@.len(),
        forall|q: int| 0 <= q < j ==> !crate::text::lex_less(name@, #[trigger] string_pair_views(v@)[q].0),
        j < v@.len() ==> crate::text::lex_less(name@, string_pair_views(v@)[j as int].0),
{
    let mut j: usize = 0;
    while j < v.len()
        invariant
            j <= v@.len(),
            forall|q: int| 0 <= q < j ==> !crate::text::lex_less(name@, #[trigger] string_pair_views(v@)[q].0),
        decreases v@.len() - j,
    {
        let other = str_chars(v[j].0.as_str());
        if crate::text::lex_less_exec(name, &other) {
            return j;
        }
        j = j + 1;
    }
    j
}

impl LaunchServices {
    /// The desktop's application shortcuts, as (name, bundle id): the first
    /// six registered bundles in name order.
    pub fn desktop_shortcuts(&self) -> (r: Vec<(String, String)>)
        ensures
            string_pair_views(r@) == desktop_shortcuts_of(self.bundles_view()),
    {
        let ghost pv = shortcut_pairs(self.bundles@);
        let mut sorted: Vec<(String, String)> = Vec::new();
        let mut i: usize = 0;
        assert(pv.take(0) =~= Seq::<(Seq<char>, Seq<char>)>::empty());
        while i < self.bundles.len()
            invariant
                pv == shortcut_pairs(self.bundles@),
                i <= self.bundles@.len(),
                string_pair_views(sorted@) == sort_by_name(pv.take(i as int)),
            decreases self.bundles@.len() - i,
        {
            let b = &self.bundles[i];
            let name = str_chars(b.name.as_str());
            let ghost sv = string_pair_views(sorted@);
            let j = name_insertion_point(&sorted, &name);
            let x: (String, String) = (b.name.clone(), b.bundle_id.clone());
            assert((x.0@, x.1@) == pv[i as int]);
            proof {
                lemma_insert_by_name_at(sv, pv[i as int], j as int);
            }
            assert(pv.take(i + 1).drop_last() =~= pv.take(i as int));
            assert(pv.take(i + 1).last() == pv[i as int]);
            sorted.insert(j, x);
            assert(string_pair_views(sorted@) =~= sv.take(j as int).push(pv[i as int]) + sv.skip(
                j as int,
            ));
            i = i + 1;
        }
        assert(pv.take(i as int) =~= pv);
        let ghost t = string_pair_views(sorted@);
        let mut out: Vec<(String, String)> = Vec::new();
        let mut k: usize = 0;
        while k < sorted.len() && k < 6
            invariant
                k <= sorted@.len(),
                k <= 6,
                t == string_pair_views(sorted@),
                string_pair_views(out@) == t.take(k as int),
            decreases sorted@.len() - k,
        {
            let ghost before = string_pair_views(out@);
            let p = (sorted[k].0.clone(), sorted[k].1.clone());
            assert(t[k as int] == (p.0@, p.1@));
            out.push(p);
            assert(string_pair_views(out@) =~= before.push((p.0@, p.1@)));
            assert(string_pair_views(out@) =~= t.take(k + 1));
            k = k + 1;
        }
        assert(t.len() > 6 ==> k == 6);
        assert(t.len() <= 6 ==> t.take(k as int) =~= t);
        out
    }
}

} // verus!
