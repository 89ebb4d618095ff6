//! Laws of application discovery and search: a scan keeps the entry found
//! last for each desktop-file id, and the Search palette's answer does not
//! depend on the order in which the applications were found (the ranking
//! order is a strict total order on distinct matches, so sorting leaves no
//! freedom).
use vstd::prelude::*;

use crate::app_finder::{
    app_order, executable_identity, id_index, insert_by_order, insert_ranked, keep_last_per_id,
    lemma_id_index, lemma_insert_ranked_elems, lemma_rank_matches, lemma_sort_ranked_elems,
    first_per_key, lemma_first_per_key_elems, match_rank, normalized, rank_key, rank_matches,
    ranked_before, ranked_matches, scanned_apps,
    sort_by_order, sort_ranked, text_order, texts_order, AppModel,
};
use crate::text::lex_less;

verus! {

proof fn lemma_lex_irreflexive(a: Seq<char>)
    ensures
        !lex_less(a, a),
    decreases a.len(),
{
    if a.len() > 0 {
        lemma_lex_irreflexive(a.drop_first());
    }
}

proof fn lemma_lex_asymmetric(a: Seq<char>, b: Seq<char>)
    ensures
        lex_less(a, b) ==> !lex_less(b, a),
    decreases a.len(),
{
    if a.len() > 0 && b.len() > 0 && (a[0] as u32) == (b[0] as u32) {
        lemma_lex_asymmetric(a.drop_first(), b.drop_first());
    }
}

proof fn lemma_lex_total(a: Seq<char>, b: Seq<char>)
    ensures
        a != b ==> lex_less(a, b) || lex_less(b, a),
    decreases a.len(),
{
    if a.len() == 0 {
        if b.len() == 0 {
            assert(a =~= b);
        }
    } else if b.len() > 0 {
        if (a[0] as u32) == (b[0] as u32) {
            vstd::utf8::char_u32_cast(a[0], a[0] as u32);
            vstd::utf8::char_u32_cast(b[0], b[0] as u32);
            assert(a[0] == b[0]);
            lemma_lex_total(a.drop_first(), b.drop_first());
            if a.drop_first() == b.drop_first() {
                assert(a =~= seq![a[0]] + a.drop_first());
                assert(b =~= seq![b[0]] + b.drop_first());
            }
        }
    }
}

proof fn lemma_lex_transitive(a: Seq<char>, b: Seq<char>, c: Seq<char>)
    ensures
        lex_less(a, b) && lex_less(b, c) ==> lex_less(a, c),
    decreases a.len(),
{
    if a.len() > 0 && b.len() > 0 && c.len() > 0 {
        lemma_lex_transitive(a.drop_first(), b.drop_first(), c.drop_first());
    }
}

/// `text_order` is a three-way comparison: antisymmetric, zero exactly on
/// equal texts.
proof fn lemma_text_order(a: Seq<char>, b: Seq<char>)
    ensures
        text_order(a, b) == -text_order(b, a),
        (text_order(a, b) == 0) == (a == b),
        -1 <= text_order(a, b) <= 1,
{
    lemma_lex_asymmetric(a, b);
    lemma_lex_asymmetric(b, a);
    lemma_lex_total(a, b);
}

proof fn lemma_text_order_transitive(a: Seq<char>, b: Seq<char>, c: Seq<char>)
    ensures
        text_order(a, b) < 0 && text_order(b, c) < 0 ==> text_order(a, c) < 0,
{
    lemma_lex_transitive(a, b, c);
    lemma_text_order(a, c);
    lemma_text_order(a, b);
    lemma_text_order(b, c);
    lemma_lex_asymmetric(a, c);
    if a == c {
        lemma_lex_asymmetric(a, b);
    }
}

proof fn lemma_texts_order(a: Seq<Seq<char>>, b: Seq<Seq<char>>)
    ensures
        texts_order(a, b) == -texts_order(b, a),
        (texts_order(a, b) == 0) == (a == b),
        -1 <= texts_order(a, b) <= 1,
    decreases a.len(),
{
    if a.len() == 0 {
        if b.len() == 0 {
            assert(a =~= b);
        }
    } else if b.len() > 0 {
        lemma_text_order(a[0], b[0]);
        lemma_texts_order(a.drop_first(), b.drop_first());
        if a[0] == b[0] && a.drop_first() == b.drop_first() {
            assert(a =~= seq![a[0]] + a.drop_first());
            assert(b =~= seq![b[0]] + b.drop_first());
        }
    }
}

proof fn lemma_texts_order_transitive(a: Seq<Seq<char>>, b: Seq<Seq<char>>, c: Seq<Seq<char>>)
    ensures
        texts_order(a, b) < 0 && texts_order(b, c) < 0 ==> texts_order(a, c) < 0,
    decreases a.len(),
{
    if a.len() > 0 && b.len() > 0 && c.len() > 0 {
        lemma_text_order(a[0], b[0]);
        lemma_text_order(b[0], c[0]);
        lemma_text_order(a[0], c[0]);
        lemma_text_order_transitive(a[0], b[0], c[0]);
        lemma_texts_order_transitive(a.drop_first(), b.drop_first(), c.drop_first());
    }
}

/// The application order is antisymmetric, and zero only between apps
/// that agree on every compared field.
proof fn lemma_app_order(x: AppModel, y: AppModel)
    ensures
        app_order(x, y) == -app_order(y, x),
        -1 <= app_order(x, y) <= 1,
        app_order(x, y) == 0 ==> {
            &&& normalized(x.name) == normalized(y.name)
            &&& x.id == y.id
            &&& x.argv == y.argv
            &&& x.comment == y.comment
            &&& x.icon == y.icon
            &&& x.terminal == y.terminal
        },
{
    lemma_text_order(normalized(x.name), normalized(y.name));
    lemma_text_order(executable_identity(x), executable_identity(y));
    lemma_text_order(normalized(x.id), normalized(y.id));
    lemma_text_order(x.id, y.id);
    lemma_texts_order(x.argv, y.argv);
    lemma_text_order(x.comment, y.comment);
    lemma_text_order(x.icon, y.icon);
}

proof fn lemma_app_order_transitive(x: AppModel, y: AppModel, z: AppModel)
    ensures
        app_order(x, y) < 0 && app_order(y, z) < 0 ==> app_order(x, z) < 0,
{
    lemma_app_order(x, y);
    lemma_app_order(y, z);
    lemma_app_order(x, z);
    lemma_text_order(normalized(x.name), normalized(y.name));
    lemma_text_order(normalized(y.name), normalized(z.name));
    lemma_text_order(normalized(x.name), normalized(z.name));
    lemma_text_order_transitive(normalized(x.name), normalized(y.name), normalized(z.name));
    lemma_text_order(executable_identity(x), executable_identity(y));
    lemma_text_order(executable_identity(y), executable_identity(z));
    lemma_text_order(executable_identity(x), executable_identity(z));
    lemma_text_order_transitive(executable_identity(x), executable_identity(y), executable_identity(z));
    lemma_text_order(normalized(x.id), normalized(y.id));
    lemma_text_order(normalized(y.id), normalized(z.id));
    lemma_text_order(normalized(x.id), normalized(z.id));
    lemma_text_order_transitive(normalized(x.id), normalized(y.id), normalized(z.id));
    lemma_text_order(x.id, y.id);
    lemma_text_order(y.id, z.id);
    lemma_text_order(x.id, z.id);
    lemma_text_order_transitive(x.id, y.id, z.id);
    lemma_texts_order(x.argv, y.argv);
    lemma_texts_order(y.argv, z.argv);
    lemma_texts_order(x.argv, z.argv);
    lemma_texts_order_transitive(x.argv, y.argv, z.argv);
    lemma_text_order(x.comment, y.comment);
    lemma_text_order(y.comment, z.comment);
    lemma_text_order(x.comment, z.comment);
    lemma_text_order_transitive(x.comment, y.comment, z.comment);
    lemma_text_order(x.icon, y.icon);
    lemma_text_order(y.icon, z.icon);
    lemma_text_order(x.icon, z.icon);
    lemma_text_order_transitive(x.icon, y.icon, z.icon);
}

proof fn lemma_ranked_before(x: (u8, AppModel), y: (u8, AppModel), z: (u8, AppModel))
    ensures
        !ranked_before(x, x),
        ranked_before(x, y) ==> !ranked_before(y, x),
        ranked_before(x, y) && ranked_before(y, z) ==> ranked_before(x, z),
        (x.0 != y.0 || app_order(x.1, y.1) != 0) ==> ranked_before(x, y) || ranked_before(y, x),
{
    lemma_app_order(x.1, x.1);
    lemma_app_order(x.1, y.1);
    lemma_app_order_transitive(x.1, y.1, z.1);
}

/// No element sorts strictly before an earlier one.
pub open spec fn ranked_sorted(s: Seq<(u8, AppModel)>) -> bool {
    forall|i: int, j: int| 0 <= i < j < s.len() ==> !ranked_before(#[trigger] s[j], #[trigger] s[i])
}

proof fn lemma_insert_ranked_sorted(s: Seq<(u8, AppModel)>, x: (u8, AppModel))
    requires
        ranked_sorted(s),
    ensures
        ranked_sorted(insert_ranked(s, x)),
    decreases s.len(),
{
    let r = insert_ranked(s, x);
    if s.len() == 0 {
    } else if ranked_before(x, s[0]) {
        assert(r == seq![x] + s);
        assert forall|i: int, j: int| 0 <= i < j < r.len() implies !ranked_before(
            #[trigger] r[j],
            #[trigger] r[i],
        ) by {
            if i == 0 {
                assert(r[j] == s[j - 1]);
                lemma_ranked_before(s[j - 1], x, s[0]);
                lemma_ranked_before(s[0], s[0], s[0]);
            } else {
                assert(r[i] == s[i - 1]);
                assert(r[j] == s[j - 1]);
            }
        }
    } else {
        let t = insert_ranked(s.drop_first(), x);
        assert(ranked_sorted(s.drop_first())) by {
            assert forall|i: int, j: int| 0 <= i < j < s.drop_first().len() implies !ranked_before(
                #[trigger] s.drop_first()[j],
                #[trigger] s.drop_first()[i],
            ) by {
                assert(s.drop_first()[i] == s[i + 1]);
                assert(s.drop_first()[j] == s[j + 1]);
            }
        }
        lemma_insert_ranked_sorted(s.drop_first(), x);
        lemma_insert_ranked_elems(s.drop_first(), x);
        assert(r == seq![s[0]] + t);
        assert forall|i: int, j: int| 0 <= i < j < r.len() implies !ranked_before(
            #[trigger] r[j],
            #[trigger] r[i],
        ) by {
            if i == 0 {
                assert(r[j] == t[j - 1]);
                if t[j - 1] != x {
                    let q = choose|q: int|
                        0 <= q < s.drop_first().len() && t[j - 1] == s.drop_first()[q];
                    assert(s.drop_first()[q] == s[q + 1]);
                }
            } else {
                assert(r[i] == t[i - 1]);
                assert(r[j] == t[j - 1]);
            }
        }
    }
}

proof fn lemma_sort_ranked_sorted(s: Seq<(u8, AppModel)>)
    ensures
        ranked_sorted(sort_ranked(s)),
    decreases s.len(),
{
    if s.len() > 0 {
        lemma_sort_ranked_sorted(s.drop_last());
        lemma_insert_ranked_sorted(sort_ranked(s.drop_last()), s.last());
    }
}

proof fn lemma_insert_ranked_multiset(s: Seq<(u8, AppModel)>, x: (u8, AppModel))
    ensures
        insert_ranked(s, x).to_multiset() == s.to_multiset().insert(x),
    decreases s.len(),
{
    broadcast use vstd::seq_lib::group_to_multiset_ensures;
    broadcast use vstd::multiset::group_multiset_axioms;
    broadcast use vstd::seq_lib::lemma_multiset_commutative;

    if s.len() == 0 {
        assert(insert_ranked(s, x) =~= s.push(x));
    } else if ranked_before(x, s[0]) {
        assert(insert_ranked(s, x) == seq![x] + s);
        assert(seq![x] =~= Seq::<(u8, AppModel)>::empty().push(x));
        assert((seq![x] + s).to_multiset() =~= seq![x].to_multiset().add(s.to_multiset()));
    } else {
        lemma_insert_ranked_multiset(s.drop_first(), x);
        let t = insert_ranked(s.drop_first(), x);
        assert(insert_ranked(s, x) == seq![s[0]] + t);
        assert(s =~= seq![s[0]] + s.drop_first());
        assert(seq![s[0]] =~= Seq::<(u8, AppModel)>::empty().push(s[0]));
        assert((seq![s[0]] + t).to_multiset() =~= seq![s[0]].to_multiset().add(t.to_multiset()));
        assert((seq![s[0]] + s.drop_first()).to_multiset() =~= seq![s[0]].to_multiset().add(
            s.drop_first().to_multiset(),
        ));
    }
}

proof fn lemma_sort_ranked_multiset(s: Seq<(u8, AppModel)>)
    ensures
        sort_ranked(s).to_multiset() == s.to_multiset(),
    decreases s.len(),
{
    broadcast use vstd::seq_lib::group_to_multiset_ensures;

    if s.len() > 0 {
        lemma_sort_ranked_multiset(s.drop_last());
        lemma_insert_ranked_multiset(sort_ranked(s.drop_last()), s.last());
        assert(s.drop_last().push(s.last()) =~= s);
    }
}

/// Any two different elements are ordered one way or the other.
pub open spec fn ranked_comparable(s: Seq<(u8, AppModel)>) -> bool {
    forall|i: int, j: int|
        0 <= i < s.len() && 0 <= j < s.len() && s[i] != s[j] ==> ranked_before(
            #[trigger] s[i],
            #[trigger] s[j],
        ) || ranked_before(s[j], s[i])
}

/// Two sorted arrangements of the same elements, under an order that
/// leaves no two different elements tied, are the same sequence.
proof fn lemma_sorted_unique(a: Seq<(u8, AppModel)>, b: Seq<(u8, AppModel)>)
    requires
        ranked_sorted(a),
        ranked_sorted(b),
        ranked_comparable(a),
        a.to_multiset() == b.to_multiset(),
    ensures
        a == b,
    decreases a.len(),
{
    broadcast use vstd::seq_lib::group_to_multiset_ensures;
    broadcast use vstd::multiset::group_multiset_axioms;

    vstd::seq_lib::to_multiset_len(a);
    vstd::seq_lib::to_multiset_len(b);
    assert(a.len() == b.len());
    if a.len() == 0 {
        assert(a =~= b);
    } else {
        assert(a.contains(a[0]));
        assert(b.to_multiset().count(a[0]) > 0);
        assert(b.contains(a[0]));
        let k = choose|k: int| 0 <= k < b.len() && b[k] == a[0];
        assert(b.contains(b[0]));
        assert(a.to_multiset().count(b[0]) > 0);
        assert(a.contains(b[0]));
        let m = choose|m: int| 0 <= m < a.len() && a[m] == b[0];
        if a[0] != b[0] {
            assert(m != 0 && k != 0);
            assert(!ranked_before(a[m], a[0]));
            assert(!ranked_before(b[k], b[0]));
            assert(false);
        }
        let a1 = a.drop_first();
        let b1 = b.drop_first();
        assert(a.remove(0) =~= a1);
        assert(b.remove(0) =~= b1);
        assert(a1.to_multiset() == b1.to_multiset()) by {
            assert(a.remove(0).to_multiset() == a.to_multiset().remove(a[0]));
            assert(b.remove(0).to_multiset() == b.to_multiset().remove(b[0]));
        }
        assert(ranked_sorted(a1)) by {
            assert forall|i: int, j: int| 0 <= i < j < a1.len() implies !ranked_before(
                #[trigger] a1[j],
                #[trigger] a1[i],
            ) by {
                assert(a1[i] == a[i + 1] && a1[j] == a[j + 1]);
            }
        }
        assert(ranked_sorted(b1)) by {
            assert forall|i: int, j: int| 0 <= i < j < b1.len() implies !ranked_before(
                #[trigger] b1[j],
                #[trigger] b1[i],
            ) by {
                assert(b1[i] == b[i + 1] && b1[j] == b[j + 1]);
            }
        }
        assert(ranked_comparable(a1)) by {
            assert forall|i: int, j: int|
                0 <= i < a1.len() && 0 <= j < a1.len() && a1[i] != a1[j] implies ranked_before(
                #[trigger] a1[i],
                #[trigger] a1[j],
            ) || ranked_before(a1[j], a1[i]) by {
                assert(a1[i] == a[i + 1] && a1[j] == a[j + 1]);
            }
        }
        lemma_sorted_unique(a1, b1);
        assert forall|i: int| 0 <= i < a.len() implies a[i] == b[i] by {
            if i > 0 {
                assert(a[i] == a1[i - 1] && b[i] == b1[i - 1]);
            }
        }
        assert(a =~= b);
    }
}

/// How often a ranked pair occurs among the matches: as often as its app
/// occurs among the inputs when the pair carries the app's rank, never
/// otherwise.
proof fn lemma_rank_matches_count(s: Seq<AppModel>, q: Seq<char>, p: (u8, AppModel))
    ensures
        rank_matches(s, q).to_multiset().count(p) == (if match_rank(p.1, q) == Some(p.0) {
            s.to_multiset().count(p.1)
        } else {
            0
        }),
    decreases s.len(),
{
    broadcast use vstd::seq_lib::group_to_multiset_ensures;
    broadcast use vstd::multiset::group_multiset_axioms;

    if s.len() > 0 {
        lemma_rank_matches_count(s.drop_last(), q, p);
        assert(s.drop_last().push(s.last()) =~= s);
        assert(s.to_multiset() == s.drop_last().to_multiset().insert(s.last()));
    }
}

/// Matches of two arrangements of the same apps are arrangements of the
/// same ranked pairs.
proof fn lemma_rank_matches_permutation(a: Seq<AppModel>, b: Seq<AppModel>, q: Seq<char>)
    requires
        a.to_multiset() == b.to_multiset(),
    ensures
        rank_matches(a, q).to_multiset() == rank_matches(b, q).to_multiset(),
{
    assert forall|p: (u8, AppModel)| #[trigger] rank_matches(a, q).to_multiset().count(p)
        == rank_matches(b, q).to_multiset().count(p) by {
        lemma_rank_matches_count(a, q, p);
        lemma_rank_matches_count(b, q, p);
    }
    assert(rank_matches(a, q).to_multiset() =~= rank_matches(b, q).to_multiset());
}

/// The Search palette's answer depends only on which applications were
/// found, not on the order they were found in, when no two of them tie
/// under the application order without being identical.
pub proof fn law_results_independent_of_input_order(
    a: Seq<AppModel>,
    b: Seq<AppModel>,
    query: Seq<char>,
)
    requires
        a.to_multiset() == b.to_multiset(),
        forall|i: int, j: int|
            0 <= i < a.len() && 0 <= j < a.len() && app_order(#[trigger] a[i], #[trigger] a[j])
                == 0 ==> a[i] == a[j],
    ensures
        ranked_matches(a, query) == ranked_matches(b, query),
{
    let q = normalized(query);
    let ra = rank_matches(a, q);
    let rb = rank_matches(b, q);
    let sa = sort_ranked(ra);
    let sb = sort_ranked(rb);
    lemma_sort_ranked_sorted(ra);
    lemma_sort_ranked_sorted(rb);
    lemma_sort_ranked_multiset(ra);
    lemma_sort_ranked_multiset(rb);
    lemma_rank_matches_permutation(a, b, q);
    lemma_sort_ranked_elems(ra);
    lemma_rank_matches(a, q);
    assert(ranked_comparable(sa)) by {
        assert forall|i: int, j: int|
            0 <= i < sa.len() && 0 <= j < sa.len() && sa[i] != sa[j] implies ranked_before(
            #[trigger] sa[i],
            #[trigger] sa[j],
        ) || ranked_before(sa[j], sa[i]) by {
            let i2 = choose|i2: int| 0 <= i2 < ra.len() && sa[i] == ra[i2];
            let j2 = choose|j2: int| 0 <= j2 < ra.len() && sa[j] == ra[j2];
            let i3 = choose|i3: int| 0 <= i3 < a.len() && a[i3] == ra[i2].1;
            let j3 = choose|j3: int| 0 <= j3 < a.len() && a[j3] == ra[j2].1;
            lemma_ranked_before(sa[i], sa[j], sa[j]);
            if sa[i].0 == sa[j].0 && app_order(sa[i].1, sa[j].1) == 0 {
                assert(app_order(a[i3], a[j3]) == 0);
                assert(a[i3] == a[j3]);
                assert(sa[i] == sa[j]);
            }
        }
    }
    lemma_sorted_unique(sa, sb);
}

/// No desktop-file id occurs twice.
pub open spec fn ids_distinct(s: Seq<AppModel>) -> bool {
    forall|k: int, l: int| 0 <= k < l < s.len() ==> (#[trigger] s[k]).id != (#[trigger] s[l]).id
}

/// `s[i]` is the last entry of `s` with its id.
pub open spec fn last_with_its_id(s: Seq<AppModel>, i: int) -> bool {
    &&& 0 <= i < s.len()
    &&& forall|j: int| i < j < s.len() ==> (#[trigger] s[j]).id != s[i].id
}

/// Some entry of `r` has this id.
pub open spec fn has_id(r: Seq<AppModel>, id: Seq<char>) -> bool {
    exists|k: int| 0 <= k < r.len() && r[k].id == id
}

/// `a` is an entry of `s` found last with its id.
pub open spec fn is_last_entry(s: Seq<AppModel>, a: AppModel) -> bool {
    exists|i: int| last_with_its_id(s, i) && s[i] == a
}

/// Every entry of `r` is an entry of `s` found last with its id.
pub open spec fn entries_last(r: Seq<AppModel>, s: Seq<AppModel>) -> bool {
    forall|k: int| 0 <= k < r.len() ==> is_last_entry(s, #[trigger] r[k])
}

/// Every id of `s` is an id of `r`.
pub open spec fn ids_covered(r: Seq<AppModel>, s: Seq<AppModel>) -> bool {
    forall|i: int| 0 <= i < s.len() ==> has_id(r, (#[trigger] s[i]).id)
}

proof fn lemma_keep_last_distinct(s: Seq<AppModel>)
    ensures
        ids_distinct(keep_last_per_id(s)),
    decreases s.len(),
{
    if s.len() > 0 {
        let x = s.last();
        let d = keep_last_per_id(s.drop_last());
        lemma_keep_last_distinct(s.drop_last());
        lemma_id_index(d, x.id);
        let i = id_index(d, x.id);
        let r = keep_last_per_id(s);
        if i >= 0 {
            assert(r == d.update(i, x));
            assert forall|k: int, l: int| 0 <= k < l < r.len() implies (#[trigger] r[k]).id
                != (#[trigger] r[l]).id by {
                assert(d[k].id != d[l].id);
            }
        } else {
            assert(r == d.push(x));
            assert forall|k: int, l: int| 0 <= k < l < r.len() implies (#[trigger] r[k]).id
                != (#[trigger] r[l]).id by {
                if l < d.len() {
                    assert(d[k].id != d[l].id);
                }
            }
        }
    }
}

proof fn lemma_keep_last_entries(s: Seq<AppModel>)
    ensures
        entries_last(keep_last_per_id(s), s),
    decreases s.len(),
{
    if s.len() > 0 {
        let sd = s.drop_last();
        let x = s.last();
        let n = s.len() - 1;
        let d = keep_last_per_id(sd);
        lemma_keep_last_entries(sd);
        lemma_keep_last_distinct(sd);
        lemma_id_index(d, x.id);
        let i = id_index(d, x.id);
        let r = keep_last_per_id(s);
        assert(last_with_its_id(s, n));
        assert(s[n] == x);
        assert(is_last_entry(s, x));
        assert forall|k: int| 0 <= k < d.len() && d[k].id != x.id implies is_last_entry(
            s,
            #[trigger] d[k],
        ) by {
            assert(is_last_entry(sd, d[k]));
            let i2 = choose|i2: int| last_with_its_id(sd, i2) && sd[i2] == d[k];
            assert(sd[i2] == s[i2]);
            assert forall|j: int| i2 < j < s.len() implies (#[trigger] s[j]).id != s[i2].id by {
                if j < n {
                    assert(s[j] == sd[j]);
                }
            }
            assert(last_with_its_id(s, i2));
        }
        if i >= 0 {
            assert(r == d.update(i, x));
            assert forall|k: int| 0 <= k < r.len() implies is_last_entry(s, #[trigger] r[k]) by {
                if k != i {
                    assert(d[k].id != d[i].id);
                    assert(r[k] == d[k]);
                }
            }
        } else {
            assert(r == d.push(x));
            assert forall|k: int| 0 <= k < r.len() implies is_last_entry(s, #[trigger] r[k]) by {
                if k < d.len() {
                    assert(r[k] == d[k]);
                }
            }
        }
    }
}

proof fn lemma_keep_last_covers(s: Seq<AppModel>)
    ensures
        ids_covered(keep_last_per_id(s), s),
    decreases s.len(),
{
    if s.len() > 0 {
        let sd = s.drop_last();
        let x = s.last();
        let n = s.len() - 1;
        let d = keep_last_per_id(sd);
        lemma_keep_last_covers(sd);
        lemma_id_index(d, x.id);
        let i = id_index(d, x.id);
        let r = keep_last_per_id(s);
        assert forall|i0: int| 0 <= i0 < s.len() implies has_id(r, (#[trigger] s[i0]).id) by {
            if i >= 0 {
                assert(r == d.update(i, x));
                if i0 == n {
                    assert(r[i].id == x.id);
                } else {
                    assert(s[i0] == sd[i0]);
                    assert(has_id(d, sd[i0].id));
                    let k = choose|k: int| 0 <= k < d.len() && d[k].id == sd[i0].id;
                    assert(r[k].id == d[k].id);
                }
            } else {
                assert(r == d.push(x));
                if i0 == n {
                    assert(r[d.len() as int].id == x.id);
                } else {
                    assert(s[i0] == sd[i0]);
                    assert(has_id(d, sd[i0].id));
                    let k = choose|k: int| 0 <= k < d.len() && d[k].id == sd[i0].id;
                    assert(r[k] == d[k]);
                }
            }
        }
    }
}

proof fn lemma_insert_by_order_elems(s: Seq<AppModel>, x: AppModel)
    ensures
        insert_by_order(s, x).len() == s.len() + 1,
        forall|k: int|
            0 <= k < insert_by_order(s, x).len() ==> #[trigger] insert_by_order(s, x)[k] == x
                || exists|j: int| 0 <= j < s.len() && insert_by_order(s, x)[k] == s[j],
        exists|k: int| 0 <= k < insert_by_order(s, x).len() && insert_by_order(s, x)[k] == x,
        forall|j: int|
            0 <= j < s.len() ==> exists|k: int|
                0 <= k < insert_by_order(s, x).len() && insert_by_order(s, x)[k] == #[trigger] s[j],
    decreases s.len(),
{
    let r = insert_by_order(s, x);
    if s.len() == 0 {
        assert(r[0] == x);
    } else if app_order(x, s[0]) < 0 {
        assert(r == seq![x] + s);
        assert(r[0] == x);
        assert forall|k: int| 0 <= k < r.len() implies #[trigger] r[k] == x || exists|j: int|
            0 <= j < s.len() && r[k] == s[j] by {
            if k > 0 {
                assert(r[k] == s[k - 1]);
            }
        }
        assert forall|j: int| 0 <= j < s.len() implies exists|k: int|
            0 <= k < r.len() && r[k] == #[trigger] s[j] by {
            assert(r[j + 1] == s[j]);
        }
    } else {
        let t = insert_by_order(s.drop_first(), x);
        lemma_insert_by_order_elems(s.drop_first(), x);
        assert(r == seq![s[0]] + t);
        assert forall|k: int| 0 <= k < r.len() implies #[trigger] r[k] == x || exists|j: int|
            0 <= j < s.len() && r[k] == s[j] by {
            if k == 0 {
                assert(r[0] == s[0]);
            } else {
                assert(r[k] == t[k - 1]);
                if t[k - 1] != x {
                    let j = choose|j: int|
                        0 <= j < s.drop_first().len() && t[k - 1] == s.drop_first()[j];
                    assert(s[j + 1] == s.drop_first()[j]);
                }
            }
        }
        let kx = choose|k: int| 0 <= k < t.len() && t[k] == x;
        assert(r[kx + 1] == x);
        assert forall|j: int| 0 <= j < s.len() implies exists|k: int|
            0 <= k < r.len() && r[k] == #[trigger] s[j] by {
            if j == 0 {
                assert(r[0] == s[0]);
            } else {
                assert(s.drop_first()[j - 1] == s[j]);
                let k = choose|k: int| 0 <= k < t.len() && t[k] == s.drop_first()[j - 1];
                assert(r[k + 1] == t[k]);
            }
        }
    }
}

proof fn lemma_insert_by_order_distinct(s: Seq<AppModel>, x: AppModel)
    requires
        ids_distinct(s),
        forall|q: int| 0 <= q < s.len() ==> (#[trigger] s[q]).id != x.id,
    ensures
        ids_distinct(insert_by_order(s, x)),
    decreases s.len(),
{
    let r = insert_by_order(s, x);
    if s.len() == 0 {
    } else if app_order(x, s[0]) < 0 {
        assert(r == seq![x] + s);
        assert forall|k: int, l: int| 0 <= k < l < r.len() implies (#[trigger] r[k]).id
            != (#[trigger] r[l]).id by {
            assert(r[l] == s[l - 1]);
            if k > 0 {
                assert(r[k] == s[k - 1]);
            }
        }
    } else {
        let sd = s.drop_first();
        let t = insert_by_order(sd, x);
        assert forall|q: int| 0 <= q < sd.len() implies (#[trigger] sd[q]).id != x.id by {
            assert(sd[q] == s[q + 1]);
        }
        assert(ids_distinct(sd)) by {
            assert forall|k: int, l: int| 0 <= k < l < sd.len() implies (#[trigger] sd[k]).id
                != (#[trigger] sd[l]).id by {
                assert(sd[k] == s[k + 1] && sd[l] == s[l + 1]);
            }
        }
        lemma_insert_by_order_distinct(sd, x);
        lemma_insert_by_order_elems(sd, x);
        assert(r == seq![s[0]] + t);
        assert forall|k: int, l: int| 0 <= k < l < r.len() implies (#[trigger] r[k]).id
            != (#[trigger] r[l]).id by {
            assert(r[l] == t[l - 1]);
            if k == 0 {
                if t[l - 1] != x {
                    let j = choose|j: int| 0 <= j < sd.len() && t[l - 1] == sd[j];
                    assert(sd[j] == s[j + 1]);
                }
            } else {
                assert(r[k] == t[k - 1]);
            }
        }
    }
}

#[verifier::rlimit(30)]
proof fn lemma_sort_by_order(s: Seq<AppModel>)
    ensures
        sort_by_order(s).len() == s.len(),
        forall|k: int|
            0 <= k < sort_by_order(s).len() ==> exists|j: int|
                0 <= j < s.len() && #[trigger] sort_by_order(s)[k] == s[j],
        forall|j: int|
            0 <= j < s.len() ==> exists|k: int|
                0 <= k < sort_by_order(s).len() && sort_by_order(s)[k] == #[trigger] s[j],
        ids_distinct(s) ==> ids_distinct(sort_by_order(s)),
    decreases s.len(),
{
    if s.len() > 0 {
        let sd = s.drop_last();
        let x = s.last();
        let t = sort_by_order(sd);
        lemma_sort_by_order(sd);
        lemma_insert_by_order_elems(t, x);
        let r = sort_by_order(s);
        assert forall|q: int| 0 <= q < sd.len() implies s[q] == #[trigger] sd[q] by {}
        assert forall|k: int| 0 <= k < r.len() implies exists|j: int|
            0 <= j < s.len() && #[trigger] r[k] == s[j] by {
            if r[k] == x {
                assert(s[s.len() - 1] == x);
            } else {
                let j1 = choose|j: int| 0 <= j < t.len() && r[k] == t[j];
                let j2 = choose|j: int| 0 <= j < sd.len() && t[j1] == sd[j];
            }
        }
        assert forall|j: int| 0 <= j < s.len() implies exists|k: int|
            0 <= k < r.len() && r[k] == #[trigger] s[j] by {
            if j == s.len() - 1 {
                let k = choose|k: int| 0 <= k < r.len() && r[k] == x;
            } else {
                let k1 = choose|k: int| 0 <= k < t.len() && t[k] == sd[j];
                let k2 = choose|k: int| 0 <= k < r.len() && r[k] == t[k1];
            }
        }
        if ids_distinct(s) {
            assert(ids_distinct(sd)) by {
                assert forall|k: int, l: int| 0 <= k < l < sd.len() implies (#[trigger] sd[k]).id
                    != (#[trigger] sd[l]).id by {
                    assert(s[k] == sd[k] && s[l] == sd[l]);
                }
            }
            assert forall|q: int| 0 <= q < t.len() implies (#[trigger] t[q]).id != x.id by {
                let j = choose|j: int| 0 <= j < sd.len() && t[q] == sd[j];
                assert(s[j].id != s[s.len() - 1].id);
            }
            lemma_insert_by_order_distinct(t, x);
        }
    }
}

/// A scan keeps exactly one application per desktop-file id, and it is the
/// entry found last with that id (a user's entry overrides the system copy
/// found before it); no id found is lost.
pub proof fn law_scan_keeps_last_entry_per_id(found: Seq<AppModel>)
    ensures
        ids_distinct(scanned_apps(found)),
        entries_last(scanned_apps(found), found),
        ids_covered(scanned_apps(found), found),
{
    let d = keep_last_per_id(found);
    let r = scanned_apps(found);
    lemma_keep_last_distinct(found);
    lemma_keep_last_entries(found);
    lemma_keep_last_covers(found);
    lemma_sort_by_order(d);
    assert(r == sort_by_order(d));
    assert forall|k: int| 0 <= k < r.len() implies is_last_entry(found, #[trigger] r[k]) by {
        let j = choose|j: int| 0 <= j < d.len() && r[k] == d[j];
        assert(is_last_entry(found, d[j]));
    }
    assert forall|i: int| 0 <= i < found.len() implies has_id(r, (#[trigger] found[i]).id) by {
        assert(has_id(d, found[i].id));
        let j = choose|j: int| 0 <= j < d.len() && d[j].id == found[i].id;
        let k = choose|k: int| 0 <= k < r.len() && r[k] == d[j];
        assert(r[k].id == found[i].id);
    }
}

/// `x` comes no later than `y` in the Search palette: a better rank, or the
/// same rank and not after it in application order.
pub open spec fn palette_ordered(x: AppModel, y: AppModel, q: Seq<char>) -> bool {
    rank_key(x, q) < rank_key(y, q) || (rank_key(x, q) == rank_key(y, q) && app_order(x, y) <= 0)
}

proof fn lemma_first_per_key_ordered(s: Seq<AppModel>, q: Seq<char>)
    requires
        forall|i: int, j: int| 0 <= i < j < s.len() ==> palette_ordered(s[i], s[j], q),
    ensures
        forall|i: int, j: int|
            0 <= i < j < first_per_key(s).len() ==> palette_ordered(
                first_per_key(s)[i],
                first_per_key(s)[j],
                q,
            ),
    decreases s.len(),
{
    if s.len() > 0 {
        let d = first_per_key(s.drop_last());
        lemma_first_per_key_ordered(s.drop_last(), q);
        lemma_first_per_key_elems(s.drop_last());
        let r = first_per_key(s);
        assert forall|i: int, j: int| 0 <= i < j < r.len() implies palette_ordered(r[i], r[j], q) by {
            assert(r[i] == d[i]);
            if j < d.len() {
                assert(r[j] == d[j]);
            } else {
                assert(r[j] == s.last());
                let m = choose|m: int| 0 <= m < s.drop_last().len() && d[i] == s.drop_last()[m];
                assert(s[m] == s.drop_last()[m]);
                assert(s[s.len() - 1] == s.last());
            }
        }
    }
}

/// Search results come in palette order: by rank, and within a rank by
/// application order (equal-ordered apps keep their input order).
pub proof fn law_results_in_palette_order(apps: Seq<AppModel>, query: Seq<char>)
    ensures
        forall|i: int, j: int|
            0 <= i < j < ranked_matches(apps, query).len() ==> palette_ordered(
                ranked_matches(apps, query)[i],
                ranked_matches(apps, query)[j],
                normalized(query),
            ),
{
    let q = normalized(query);
    let rm = rank_matches(apps, q);
    let sr = sort_ranked(rm);
    let m = sr.map_values(|p: (u8, AppModel)| p.1);
    lemma_rank_matches(apps, q);
    lemma_sort_ranked_elems(rm);
    lemma_sort_ranked_sorted(rm);
    assert forall|k: int| #![trigger sr[k]] 0 <= k < sr.len() implies match_rank(sr[k].1, q) == Some(
        sr[k].0,
    ) by {
        let j = choose|j: int| 0 <= j < rm.len() && sr[k] == rm[j];
    }
    assert forall|i: int, j: int| 0 <= i < j < m.len() implies palette_ordered(m[i], m[j], q) by {
        assert(m[i] == sr[i].1);
        assert(m[j] == sr[j].1);
        assert(match_rank(sr[i].1, q) == Some(sr[i].0));
        assert(match_rank(sr[j].1, q) == Some(sr[j].0));
        assert(!ranked_before(sr[j], sr[i]));
        lemma_app_order(sr[i].1, sr[j].1);
    }
    lemma_first_per_key_ordered(m, q);
}

/// Search finds an app by its description or its command line too: when
/// the normalized query's characters occur in order in the normalized
/// description or in the normalized space-joined command line of an input
/// app, the app matches (whatever its name) and an app of its identity is
/// among the results.
pub proof fn law_description_and_command_matches_are_found(
    apps: Seq<AppModel>,
    query: Seq<char>,
    j: int,
)
    requires
        0 <= j < apps.len(),
        crate::app_finder::is_subsequence(normalized(query), normalized(apps[j].comment))
            || crate::app_finder::is_subsequence(
            normalized(query),
            normalized(crate::app_finder::join_spaced(apps[j].argv)),
        ),
    ensures
        match_rank(apps[j], normalized(query)) is Some,
        exists|k: int|
            0 <= k < ranked_matches(apps, query).len() && crate::app_finder::semantic_key(
                ranked_matches(apps, query)[k],
            ) == crate::app_finder::semantic_key(apps[j]),
{
    crate::app_finder::law_results_one_per_identity(apps, query);
    assert(match_rank(apps[j], normalized(query)) is Some);
    assert(apps[j] == apps[j]);
}

/// The field codes `%f %F %u %U %i %c %k` stand for files, URLs, an icon,
/// a name or the entry's path, which the palette never supplies: anywhere
/// after a run of plain characters, such a code expands to nothing, so a
/// token expands as it would without it.
pub proof fn law_dropped_field_codes_expand_to_nothing(a: Seq<char>, c: char, b: Seq<char>)
    requires
        forall|i: int| 0 <= i < a.len() ==> a[i] != '%',
        c == 'f' || c == 'F' || c == 'u' || c == 'U' || c == 'i' || c == 'c' || c == 'k',
    ensures
        crate::app_finder::expand_fields(a + seq!['%', c] + b) == crate::app_finder::expand_fields(
            a + b,
        ),
    decreases a.len(),
{
    let t = a + seq!['%', c] + b;
    if a.len() == 0 {
        assert(t =~= seq!['%', c] + b);
        assert(t.skip(2) =~= b);
        assert(a + b =~= b);
    } else {
        let a1 = a.drop_first();
        law_dropped_field_codes_expand_to_nothing(a1, c, b);
        assert(t.drop_first() =~= a1 + seq!['%', c] + b);
        assert((a + b).drop_first() =~= a1 + b);
        assert(t[0] == a[0]);
        assert((a + b)[0] == a[0]);
    }
}

/// Search ranks by how the query meets the name: an exact name first (0),
/// then a name that starts with the query (1), a name that contains it (2),
/// a name holding its characters in order (3); the empty query matches
/// every app at the last rank (5).
pub proof fn law_name_matches_rank_by_closeness(app: AppModel, q: Seq<char>)
    ensures
        q.len() == 0 ==> match_rank(app, q) == Some(5u8),
        q.len() > 0 && normalized(app.name) == q ==> match_rank(app, q) == Some(0u8),
        q.len() > 0 && crate::text::starts_with(normalized(app.name), q) ==> (match_rank(app, q)
            is Some && rank_key(app, q) <= 1),
        q.len() > 0 && crate::text::contains_seq(normalized(app.name), q) ==> (match_rank(app, q)
            is Some && rank_key(app, q) <= 2),
        q.len() > 0 && crate::app_finder::is_subsequence(q, normalized(app.name)) ==> (match_rank(
            app,
            q,
        ) is Some && rank_key(app, q) <= 3),
        (q.len() > 0 && match_rank(app, q) is Some && rank_key(app, q) <= 3)
            ==> crate::app_finder::is_subsequence(q, normalized(app.name))
            || crate::text::contains_seq(normalized(app.name), q) || crate::text::starts_with(
            normalized(app.name),
            q,
        ) || normalized(app.name) == q,
{
}

/// `%%` stands for one `%`, and any other code than the dropped ones and
/// `%%` makes the token invalid: after plain characters `a`, `a%%b`
/// expands to `a%` followed by the expansion of `b`, and `a%xb` for such a
/// code `x` does not expand.
pub proof fn law_percent_codes(a: Seq<char>, c: char, b: Seq<char>)
    requires
        forall|i: int| 0 <= i < a.len() ==> a[i] != '%',
    ensures
        c == '%' ==> crate::app_finder::expand_fields(a + seq!['%', c] + b)
            == crate::app_finder::prefixed(a.push('%'), crate::app_finder::expand_fields(b)),
        !(c == '%' || c == 'f' || c == 'F' || c == 'u' || c == 'U' || c == 'i' || c == 'c' || c
            == 'k') ==> crate::app_finder::expand_fields(a + seq!['%', c] + b) is None,
    decreases a.len(),
{
    let t = a + seq!['%', c] + b;
    if a.len() == 0 {
        assert(t =~= seq!['%', c] + b);
        assert(t.skip(2) =~= b);
        assert(a.push('%') =~= seq!['%']);
    } else {
        let a1 = a.drop_first();
        law_percent_codes(a1, c, b);
        assert(t.drop_first() =~= a1 + seq!['%', c] + b);
        assert(t[0] == a[0]);
        assert(seq![a[0]] + a1.push('%') =~= a.push('%'));
        match crate::app_finder::expand_fields(b) {
            Some(r) => {
                assert(seq![a[0]] + (a1.push('%') + r) =~= a.push('%') + r);
            },
            None => {},
        }
    }
}

} // verus!
