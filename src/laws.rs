//! What holds of every expansion and every rendering.

use vstd::prelude::*;
use vstd::arithmetic::div_mod::{lemma_fundamental_div_mod, lemma_mod_bound};
use crate::scalar::ScalarModel;
use crate::profile::{
    Assignment, ProfileModel, cross, distinct_first, expansion, file_stem, script_text,
};

verus! {

/// The product of the lists' lengths.
pub open spec fn product_of_lengths(lists: Seq<Seq<ScalarModel>>) -> nat
    decreases lists.len(),
{
    if lists.len() == 0 {
        1
    } else {
        product_of_lengths(lists.drop_last()) * lists.last().len()
    }
}

proof fn lemma_split_index(k: int, n: int, m: int)
    requires
        0 <= k < n * m,
        m > 0,
    ensures
        0 <= k / m < n,
        0 <= k % m < m,
        k == (k / m) * m + k % m,
{
    lemma_fundamental_div_mod(k, m);
    lemma_mod_bound(k, m);
    let q = k / m;
    let r = k % m;
    assert(0 <= q < n) by (nonlinear_arith)
        requires
            k == m * q + r,
            0 <= r < m,
            0 <= k < n * m,
            m > 0,
    ;
    assert(k == q * m + r) by (nonlinear_arith)
        requires
            k == m * q + r,
    ;
}

proof fn lemma_cross_len(lists: Seq<Seq<ScalarModel>>)
    ensures
        cross(lists).len() == product_of_lengths(lists),
    decreases lists.len(),
{
    if lists.len() > 0 {
        lemma_cross_len(lists.drop_last());
    }
}

proof fn lemma_cross_distinct(lists: Seq<Seq<ScalarModel>>)
    requires
        forall|j: int| 0 <= j < lists.len() ==> (#[trigger] lists[j]).no_duplicates(),
    ensures
        cross(lists).no_duplicates(),
    decreases lists.len(),
{
    if lists.len() > 0 {
        let prev = cross(lists.drop_last());
        let last = lists.last();
        let m = last.len() as int;
        assert forall|j: int| 0 <= j < lists.drop_last().len() implies (
        #[trigger] lists.drop_last()[j]).no_duplicates() by {
            assert(lists.drop_last()[j] == lists[j]);
        }
        lemma_cross_distinct(lists.drop_last());
        assert(last == lists[lists.len() - 1]);
        let c = cross(lists);
        assert forall|k1: int, k2: int|
            0 <= k1 < c.len() && 0 <= k2 < c.len() && k1 != k2 implies c[k1] != c[k2] by {
            lemma_split_index(k1, prev.len() as int, m);
            lemma_split_index(k2, prev.len() as int, m);
            let (q1, r1) = (k1 / m, k1 % m);
            let (q2, r2) = (k2 / m, k2 % m);
            if c[k1] == c[k2] {
                assert(c[k1] == prev[q1].push(last[r1]));
                assert(c[k2] == prev[q2].push(last[r2]));
                assert(prev[q1].push(last[r1]).drop_last() =~= prev[q1]);
                assert(prev[q2].push(last[r2]).drop_last() =~= prev[q2]);
                assert(prev[q1] == prev[q2]);
                assert(last[r1] == c[k1].last());
                assert(last[r2] == c[k2].last());
                assert(q1 == q2);
                assert(r1 == r2);
            }
        }
    }
}

proof fn lemma_cross_empty(lists: Seq<Seq<ScalarModel>>, j: int)
    requires
        0 <= j < lists.len(),
        lists[j].len() == 0,
    ensures
        cross(lists).len() == 0,
    decreases lists.len(),
{
    if j < lists.len() - 1 {
        assert(lists.drop_last()[j] == lists[j]);
        lemma_cross_empty(lists.drop_last(), j);
        assert(cross(lists).len() == 0 * lists.last().len());
    }
}

proof fn lemma_distinct_first_keeps(s: Seq<Seq<ScalarModel>>)
    requires
        s.no_duplicates(),
    ensures
        distinct_first(s) == s,
    decreases s.len(),
{
    if s.len() > 0 {
        lemma_distinct_first_keeps(s.drop_last());
        assert(!s.drop_last().contains(s.last())) by {
            if s.drop_last().contains(s.last()) {
                let i = choose|i: int| 0 <= i < s.len() - 1 && s.drop_last()[i] == s.last();
                assert(s[i] == s[s.len() - 1]);
            }
        }
        assert(s.drop_last().push(s.last()) =~= s);
    }
}

/// Expanding a profile whose candidate lists hold no value twice yields
/// exactly as many distinct assignments as the product of the lists' lengths.
pub proof fn lemma_expansion_count(name: Seq<char>, p: ProfileModel)
    requires
        forall|j: int| 0 <= j < p.lists.len() ==> (#[trigger] p.lists[j]).no_duplicates(),
    ensures
        expansion(name, p).len() == product_of_lengths(p.lists),
        expansion(name, p).no_duplicates(),
{
    lemma_cross_len(p.lists);
    lemma_cross_distinct(p.lists);
    lemma_distinct_first_keeps(cross(p.lists));
    let e = expansion(name, p);
    let c = cross(p.lists);
    assert forall|k1: int, k2: int|
        0 <= k1 < e.len() && 0 <= k2 < e.len() && k1 != k2 implies e[k1] != e[k2] by {
        assert(e[k1].params == c[k1]);
        assert(e[k2].params == c[k2]);
    }
}

/// A profile with no parameters expands to exactly one assignment, with no
/// keys and no values.
pub proof fn lemma_expansion_without_parameters(name: Seq<char>, p: ProfileModel)
    requires
        p.lists.len() == 0,
        p.keys.len() == 0,
    ensures
        expansion(name, p).len() == 1,
        expansion(name, p)[0].param_keys.len() == 0,
        expansion(name, p)[0].params.len() == 0,
{
    let c = cross(p.lists);
    assert(c == seq![Seq::<ScalarModel>::empty()]);
    assert(c.drop_last().len() == 0);
    assert(distinct_first(c.drop_last()) == c.drop_last());
    assert(distinct_first(c) =~= c);
}

/// A profile with a parameter that has no candidate values expands to no
/// assignment at all.
pub proof fn lemma_expansion_of_empty_list(name: Seq<char>, p: ProfileModel, j: int)
    requires
        0 <= j < p.lists.len(),
        p.lists[j].len() == 0,
    ensures
        expansion(name, p).len() == 0,
{
    lemma_cross_empty(p.lists, j);
    assert(distinct_first(cross(p.lists)).len() == 0);
}

/// The script of an assignment depends on the assignment alone: rendering
/// equal assignments gives the same text.
pub proof fn lemma_render_deterministic(a: Assignment, b: Assignment)
    requires
        a == b,
    ensures
        script_text(a) == script_text(b),
{
}

proof fn lemma_cross_rows(lists: Seq<Seq<ScalarModel>>)
    ensures
        forall|i: int| 0 <= i < cross(lists).len() ==> (#[trigger] cross(lists)[i]).len() == lists.len(),
    decreases lists.len(),
{
    if lists.len() > 0 {
        lemma_cross_rows(lists.drop_last());
        let prev = cross(lists.drop_last());
        let m = lists.last().len() as int;
        assert forall|i: int| 0 <= i < cross(lists).len() implies (#[trigger] cross(lists)[i]).len()
            == lists.len() by {
            let n = prev.len() as int;
            assert(cross(lists).len() == n * m);
            assert(m > 0) by (nonlinear_arith)
                requires
                    0 <= i < n * m,
                    m >= 0,
                    n >= 0,
            ;
            lemma_split_index(i, n, m);
            assert(prev[i / m].len() == lists.drop_last().len());
        }
    }
}

proof fn lemma_distinct_first_from(s: Seq<Seq<ScalarModel>>)
    ensures
        forall|i: int| 0 <= i < distinct_first(s).len() ==> s.contains(#[trigger] distinct_first(s)[i]),
    decreases s.len(),
{
    if s.len() > 0 {
        lemma_distinct_first_from(s.drop_last());
        let d = distinct_first(s.drop_last());
        assert forall|i: int| 0 <= i < distinct_first(s).len() implies s.contains(
            #[trigger] distinct_first(s)[i],
        ) by {
            if i < d.len() {
                let k = choose|k: int| 0 <= k < s.drop_last().len() && s.drop_last()[k] == d[i];
                assert(s[k] == d[i]);
            } else {
                assert(s[s.len() - 1] == distinct_first(s)[i]);
            }
        }
    }
}

/// Every assignment of a profile has one value per parameter name.
pub proof fn lemma_expansion_shape(name: Seq<char>, p: ProfileModel)
    requires
        p.keys.len() == p.lists.len(),
    ensures
        forall|i: int|
            0 <= i < expansion(name, p).len() ==> (#[trigger] expansion(name, p)[i]).params.len()
                == expansion(name, p)[i].param_keys.len(),
{
    lemma_cross_rows(p.lists);
    lemma_distinct_first_from(cross(p.lists));
    let d = distinct_first(cross(p.lists));
    assert forall|i: int| 0 <= i < expansion(name, p).len() implies (#[trigger] expansion(
        name,
        p,
    )[i]).params.len() == expansion(name, p)[i].param_keys.len() by {
        assert(expansion(name, p)[i].params == d[i]);
        assert(cross(p.lists).contains(d[i]));
    }
}

/// The name of an assignment's output file is made from its values alone.
pub proof fn lemma_file_stem_from_values(a: Assignment, b: Assignment)
    requires
        a.params == b.params,
    ensures
        file_stem(a) == file_stem(b),
{
}

} // verus!
