//! Stable ranking of records by a rational key.
//!
//! A ranking is described as a permutation of the indices `0 .. n`:
//! index `a` comes before index `b` when `a`'s key is strictly better,
//! or the keys are equal in value and `a` was inserted first. That
//! tie-break makes the order strict and total over distinct indices,
//! so the sorted permutation is unique: stability is forced by the
//! specification rather than promised by an algorithm.
//!
//! The specification-level sort is a recursive insertion sort
//! ([`sort_upto`]); the executable sort builds the same permutation
//! and is proved equal to it.

use vstd::prelude::*;
use crate::ratio::{
    Ratio, lemma_ratio_eqv_lt_trans, lemma_ratio_eqv_trans, lemma_ratio_lt_eqv_trans,
    lemma_ratio_lt_trans, lemma_ratio_trichotomy, ratio_eqv, ratio_eqv_exec, ratio_lt,
    ratio_lt_exec, ratio_wf,
};

verus! {

/// Every key in the sequence is a well-formed ratio.
pub open spec fn keys_wf(keys: Seq<Ratio>) -> bool {
    forall|i: int| 0 <= i < keys.len() ==> ratio_wf(#[trigger] keys[i])
}

/// Index `a` must come strictly before index `b`: by key value,
/// ascending when `asc` and descending otherwise, with ties broken by
/// the smaller index.
pub open spec fn precedes(keys: Seq<Ratio>, asc: bool, a: int, b: int) -> bool {
    if asc {
        ratio_lt(keys[a], keys[b]) || (ratio_eqv(keys[a], keys[b]) && a < b)
    } else {
        ratio_lt(keys[b], keys[a]) || (ratio_eqv(keys[a], keys[b]) && a < b)
    }
}

/// The index sequence is sorted: every earlier entry precedes every
/// later one.
pub open spec fn pairwise_sorted(s: Seq<int>, keys: Seq<Ratio>, asc: bool) -> bool {
    forall|p: int, q: int|
        0 <= p < q < s.len() ==> #[trigger] precedes(keys, asc, s[p], s[q])
}

/// Inserts index `x` into `s` directly before the first entry that `x`
/// precedes.
pub open spec fn insert_sorted(s: Seq<int>, keys: Seq<Ratio>, asc: bool, x: int) -> Seq<int>
    decreases s.len(),
{
    if s.len() == 0 {
        seq![x]
    } else if precedes(keys, asc, x, s[0]) {
        seq![x] + s
    } else {
        seq![s[0]] + insert_sorted(s.drop_first(), keys, asc, x)
    }
}

/// The sorted permutation of the indices `0 .. n`, built by inserting
/// each index in turn.
pub open spec fn sort_upto(keys: Seq<Ratio>, asc: bool, n: int) -> Seq<int>
    decreases n,
{
    if n <= 0 {
        Seq::empty()
    } else {
        insert_sorted(sort_upto(keys, asc, n - 1), keys, asc, n - 1)
    }
}

/// Distinct indices are strictly comparable, one way only.
pub proof fn lemma_precedes_total(keys: Seq<Ratio>, asc: bool, a: int, b: int)
    requires
        a != b,
    ensures
        precedes(keys, asc, a, b) || precedes(keys, asc, b, a),
        !(precedes(keys, asc, a, b) && precedes(keys, asc, b, a)),
{
    lemma_ratio_trichotomy(keys[a], keys[b]);
    lemma_ratio_trichotomy(keys[b], keys[a]);
}

/// The precedence order is transitive over in-range indices.
pub proof fn lemma_precedes_trans(keys: Seq<Ratio>, asc: bool, a: int, b: int, c: int)
    requires
        keys_wf(keys),
        0 <= a < keys.len(),
        0 <= b < keys.len(),
        0 <= c < keys.len(),
        precedes(keys, asc, a, b),
        precedes(keys, asc, b, c),
    ensures
        precedes(keys, asc, a, c),
{
    let ka = keys[a];
    let kb = keys[b];
    let kc = keys[c];
    if asc {
        if ratio_lt(ka, kb) {
            if ratio_lt(kb, kc) {
                lemma_ratio_lt_trans(ka, kb, kc);
            } else {
                lemma_ratio_lt_eqv_trans(ka, kb, kc);
            }
        } else {
            if ratio_lt(kb, kc) {
                lemma_ratio_eqv_lt_trans(ka, kb, kc);
            } else {
                lemma_ratio_eqv_trans(ka, kb, kc);
            }
        }
    } else {
        if ratio_lt(kb, ka) {
            if ratio_lt(kc, kb) {
                lemma_ratio_lt_trans(kc, kb, ka);
            } else {
                lemma_ratio_eqv_lt_trans(kc, kb, ka);
            }
        } else {
            if ratio_lt(kc, kb) {
                lemma_ratio_lt_eqv_trans(kc, kb, ka);
            } else {
                lemma_ratio_eqv_trans(ka, kb, kc);
            }
        }
    }
}

/// When `j` is the first position whose entry `x` precedes, inserting
/// `x` lands exactly at position `j`.
pub proof fn lemma_insert_sorted_shape(s: Seq<int>, keys: Seq<Ratio>, asc: bool, x: int, j: int)
    requires
        0 <= j <= s.len(),
        forall|k: int| 0 <= k < j ==> !precedes(keys, asc, x, #[trigger] s[k]),
        j < s.len() ==> precedes(keys, asc, x, s[j]),
    ensures
        insert_sorted(s, keys, asc, x) == s.insert(j, x),
    decreases s.len(),
{
    if s.len() == 0 {
        assert(insert_sorted(s, keys, asc, x) =~= s.insert(0, x));
    } else if j == 0 {
        assert(insert_sorted(s, keys, asc, x) =~= s.insert(0, x));
    } else {
        let rest = s.drop_first();
        assert(forall|k: int| 0 <= k < j - 1 ==> !precedes(keys, asc, x, #[trigger] rest[k]))
            by {
            assert(forall|k: int|
                0 <= k < j - 1 ==> #[trigger] rest[k] == s[k + 1] && !precedes(
                    keys,
                    asc,
                    x,
                    s[k + 1],
                ));
        }
        lemma_insert_sorted_shape(rest, keys, asc, x, j - 1);
        assert(insert_sorted(s, keys, asc, x) =~= s.insert(j, x));
    }
}

/// Inserting a fresh in-range index keeps the sequence sorted and adds
/// exactly that index.
pub proof fn lemma_insert_sorted_props(s: Seq<int>, keys: Seq<Ratio>, asc: bool, x: int)
    requires
        keys_wf(keys),
        pairwise_sorted(s, keys, asc),
        forall|k: int| 0 <= k < s.len() ==> 0 <= #[trigger] s[k] < keys.len(),
        forall|k: int| 0 <= k < s.len() ==> #[trigger] s[k] != x,
        0 <= x < keys.len(),
    ensures
        insert_sorted(s, keys, asc, x).len() == s.len() + 1,
        forall|k: int|
            0 <= k < s.len() + 1 ==> #[trigger] insert_sorted(s, keys, asc, x)[k] == x
                || s.contains(insert_sorted(s, keys, asc, x)[k]),
        insert_sorted(s, keys, asc, x).contains(x),
        forall|v: int| s.contains(v) ==> #[trigger] insert_sorted(s, keys, asc, x).contains(v),
        pairwise_sorted(insert_sorted(s, keys, asc, x), keys, asc),
    decreases s.len(),
{
    let r = insert_sorted(s, keys, asc, x);
    if s.len() == 0 {
        assert(r =~= seq![x]);
        assert(r[0] == x);
    } else if precedes(keys, asc, x, s[0]) {
        assert(r =~= seq![x] + s);
        assert(r[0] == x);
        assert forall|p: int, q: int| 0 <= p < q < r.len() implies #[trigger] precedes(
            keys,
            asc,
            r[p],
            r[q],
        ) by {
            if p == 0 {
                if q == 1 {
                    assert(r[q] == s[0]);
                } else {
                    assert(precedes(keys, asc, s[0], s[q - 1]));
                    lemma_precedes_trans(keys, asc, x, s[0], s[q - 1]);
                }
            } else {
                assert(precedes(keys, asc, s[p - 1], s[q - 1]));
            }
        }
        assert forall|v: int| s.contains(v) implies #[trigger] r.contains(v) by {
            let i = choose|i: int| 0 <= i < s.len() && s[i] == v;
            assert(r[i + 1] == v);
        }
    } else {
        let rest = s.drop_first();
        assert(forall|k: int| 0 <= k < rest.len() ==> #[trigger] rest[k] == s[k + 1]);
        assert forall|p: int, q: int| 0 <= p < q < rest.len() implies #[trigger] precedes(
            keys,
            asc,
            rest[p],
            rest[q],
        ) by {
            assert(precedes(keys, asc, s[p + 1], s[q + 1]));
        }
        lemma_insert_sorted_props(rest, keys, asc, x);
        let rr = insert_sorted(rest, keys, asc, x);
        assert(r =~= seq![s[0]] + rr);
        // the head precedes every entry of the inserted tail
        assert forall|k: int| 0 <= k < rr.len() implies precedes(keys, asc, s[0], #[trigger] rr[k])
            by {
            if rr[k] == x {
                lemma_precedes_total(keys, asc, x, s[0]);
            } else {
                assert(rest.contains(rr[k]));
                let i = choose|i: int| 0 <= i < rest.len() && rest[i] == rr[k];
                assert(precedes(keys, asc, s[0], s[i + 1]));
            }
        }
        assert forall|p: int, q: int| 0 <= p < q < r.len() implies #[trigger] precedes(
            keys,
            asc,
            r[p],
            r[q],
        ) by {
            if p == 0 {
                assert(r[q] == rr[q - 1]);
            } else {
                assert(r[p] == rr[p - 1] && r[q] == rr[q - 1]);
            }
        }
        assert(rr.contains(x));
        let i = choose|i: int| 0 <= i < rr.len() && rr[i] == x;
        assert(r[i + 1] == x);
        assert(r.contains(x));
        assert forall|v: int| s.contains(v) implies #[trigger] r.contains(v) by {
            let i = choose|i: int| 0 <= i < s.len() && s[i] == v;
            if i == 0 {
                assert(r[0] == v);
            } else {
                assert(rest[i - 1] == v);
                assert(rest.contains(v));
                assert(rr.contains(v));
                let w = choose|w: int| 0 <= w < rr.len() && rr[w] == v;
                assert(r[w + 1] == v);
            }
        }
        assert forall|k: int| 0 <= k < s.len() + 1 implies #[trigger] r[k] == x || s.contains(r[k])
            by {
            if k > 0 {
                if rr[k - 1] != x {
                    assert(rest.contains(rr[k - 1]));
                    let i = choose|i: int| 0 <= i < rest.len() && rest[i] == rr[k - 1];
                    assert(s[i + 1] == rr[k - 1]);
                }
            } else {
                assert(s[0] == r[0]);
            }
        }
    }
}

/// The sorted permutation of `0 .. n`: it has length `n`, holds every
/// index below `n` and nothing else, and is sorted.
pub proof fn lemma_sort_upto_props(keys: Seq<Ratio>, asc: bool, n: int)
    requires
        keys_wf(keys),
        0 <= n <= keys.len(),
    ensures
        sort_upto(keys, asc, n).len() == n,
        forall|k: int| 0 <= k < n ==> 0 <= #[trigger] sort_upto(keys, asc, n)[k] < n,
        forall|v: int| 0 <= v < n ==> #[trigger] sort_upto(keys, asc, n).contains(v),
        pairwise_sorted(sort_upto(keys, asc, n), keys, asc),
    decreases n,
{
    if n > 0 {
        lemma_sort_upto_props(keys, asc, n - 1);
        let prev = sort_upto(keys, asc, n - 1);
        lemma_insert_sorted_props(prev, keys, asc, n - 1);
        let r = sort_upto(keys, asc, n);
        assert forall|v: int| 0 <= v < n implies #[trigger] r.contains(v) by {
            if v < n - 1 {
                assert(prev.contains(v));
            }
        }
    }
}

/// Law: ranking is stable. If two entries carry equal key values, the
/// one inserted earlier keeps its place before the other in the sorted
/// permutation, whichever direction the ranking uses.
pub proof fn lemma_sort_stable(
    keys: Seq<Ratio>,
    asc: bool,
    n: int,
    i: int,
    j: int,
    pi: int,
    pj: int,
)
    requires
        keys_wf(keys),
        0 <= i < j < n <= keys.len(),
        ratio_eqv(keys[i], keys[j]),
        0 <= pi < n,
        0 <= pj < n,
        sort_upto(keys, asc, n)[pi] == i,
        sort_upto(keys, asc, n)[pj] == j,
    ensures
        pi < pj,
{
    lemma_sort_upto_props(keys, asc, n);
    let s = sort_upto(keys, asc, n);
    lemma_ratio_trichotomy(keys[i], keys[j]);
    if pj < pi {
        assert(precedes(keys, asc, s[pj], s[pi]));
        assert(false);
    }
    if pi == pj {
        assert(false);
    }
}

/// The integer views of an index vector.
pub open spec fn idx_view(p: Seq<usize>) -> Seq<int> {
    p.map_values(|u: usize| u as int)
}

/// Decides the precedence order between two in-range indices.
fn precedes_exec(keys: &Vec<Ratio>, asc: bool, a: usize, b: usize) -> (r: bool)
    requires
        a < keys@.len(),
        b < keys@.len(),
    ensures
        r == precedes(keys@, asc, a as int, b as int),
{
    let ka = keys[a];
    let kb = keys[b];
    if asc {
        ratio_lt_exec(&ka, &kb) || (ratio_eqv_exec(&ka, &kb) && a < b)
    } else {
        ratio_lt_exec(&kb, &ka) || (ratio_eqv_exec(&ka, &kb) && a < b)
    }
}

/// Builds the sorted permutation of `0 .. keys.len()` by insertion,
/// equal to the specification-level [`sort_upto`].
pub fn sort_indices(keys: &Vec<Ratio>, asc: bool) -> (perm: Vec<usize>)
    requires
        keys_wf(keys@),
    ensures
        idx_view(perm@) == sort_upto(keys@, asc, keys@.len() as int),
        perm@.len() == keys@.len(),
        forall|k: int| 0 <= k < perm@.len() ==> #[trigger] perm@[k] < keys@.len(),
{
    let n = keys.len();
    let mut perm: Vec<usize> = Vec::new();
    proof {
        assert(idx_view(perm@) =~= sort_upto(keys@, asc, 0));
    }
    let mut i: usize = 0;
    while i < n
        invariant
            keys_wf(keys@),
            n == keys@.len(),
            i <= n,
            perm@.len() == i,
            idx_view(perm@) == sort_upto(keys@, asc, i as int),
            forall|k: int| 0 <= k < i ==> #[trigger] perm@[k] < i,
        decreases n - i,
    {
        let ghost prev = idx_view(perm@);
        let mut j: usize = 0;
        while j < perm.len() && !precedes_exec(keys, asc, i, perm[j])
            invariant
                keys_wf(keys@),
                n == keys@.len(),
                i < n,
                perm@.len() == i,
                idx_view(perm@) == prev,
                forall|k: int| 0 <= k < i ==> #[trigger] perm@[k] < i,
                j <= i,
                forall|k: int|
                    0 <= k < j ==> !precedes(keys@, asc, i as int, #[trigger] prev[k]),
            decreases perm@.len() - j,
        {
            j += 1;
        }
        proof {
            lemma_insert_sorted_shape(prev, keys@, asc, i as int, j as int);
        }
        perm.insert(j, i);
        proof {
            assert(idx_view(perm@) =~= prev.insert(j as int, i as int));
            assert(idx_view(perm@) == sort_upto(keys@, asc, i as int + 1));
        }
        i += 1;
    }
    proof {
        lemma_sort_upto_props(keys@, asc, n as int);
    }
    perm
}

} // verus!
