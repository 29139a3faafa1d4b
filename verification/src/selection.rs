//! Selections: sequences drawn from another sequence without taking any
//! position twice. Every random outcome in this crate is described as one.

use vstd::prelude::*;

verus! {

/// `idx` picks `len` pairwise different positions of a sequence of length `n`.
pub open spec fn injective_into(idx: Seq<int>, n: int) -> bool {
    &&& forall|i: int| 0 <= i < idx.len() ==> 0 <= #[trigger] idx[i] < n
    &&& forall|i: int, j: int|
        0 <= i < idx.len() && 0 <= j < idx.len() && i != j ==> #[trigger] idx[i] != #[trigger] idx[j]
}

/// `idx` witnesses that `r` is drawn from `src`: `r[i]` is `src[idx[i]]`.
pub open spec fn selects<A>(idx: Seq<int>, r: Seq<A>, src: Seq<A>) -> bool {
    &&& idx.len() == r.len()
    &&& injective_into(idx, src.len() as int)
    &&& forall|i: int| 0 <= i < r.len() ==> #[trigger] r[i] == src[idx[i]]
}

/// `r` holds items of `src`, each position of `src` used at most once, in any order.
pub open spec fn is_selection_of<A>(r: Seq<A>, src: Seq<A>) -> bool {
    exists|idx: Seq<int>| selects(idx, r, src)
}

/// `r` is a selection of `src` that uses every position.
pub open spec fn is_permutation_of<A>(r: Seq<A>, src: Seq<A>) -> bool {
    r.len() == src.len() && is_selection_of(r, src)
}

/// A selection of a selection is a selection.
pub proof fn lemma_selection_transitive<A>(a: Seq<A>, b: Seq<A>, c: Seq<A>)
    requires
        is_selection_of(a, b),
        is_selection_of(b, c),
    ensures
        is_selection_of(a, c),
{
    let ab = choose|idx: Seq<int>| selects(idx, a, b);
    let bc = choose|idx: Seq<int>| selects(idx, b, c);
    let ac = Seq::new(a.len(), |i: int| bc[ab[i]]);
    assert forall|i: int, j: int| 0 <= i < ac.len() && 0 <= j < ac.len() && i != j implies ac[i]
        != ac[j] by {
        assert(ab[i] != ab[j]);
    }
    assert forall|i: int| 0 <= i < a.len() implies #[trigger] a[i] == c[ac[i]] by {
        assert(a[i] == b[ab[i]]);
        assert(b[ab[i]] == c[bc[ab[i]]]);
    }
    assert(selects(ac, a, c));
}

/// Mapping both sides through the same function keeps a selection.
pub proof fn lemma_selection_map<A, B>(r: Seq<A>, src: Seq<A>, f: spec_fn(A) -> B)
    requires
        is_selection_of(r, src),
    ensures
        is_selection_of(r.map_values(f), src.map_values(f)),
{
    let idx = choose|idx: Seq<int>| selects(idx, r, src);
    assert forall|i: int| 0 <= i < r.len() implies #[trigger] r.map_values(f)[i] == src.map_values(
        f,
    )[idx[i]] by {
        assert(r[i] == src[idx[i]]);
    }
    assert(selects(idx, r.map_values(f), src.map_values(f)));
}

/// A selection of a sequence without repeats has no repeats.
pub proof fn lemma_selection_no_duplicates<A>(r: Seq<A>, src: Seq<A>)
    requires
        is_selection_of(r, src),
        src.no_duplicates(),
    ensures
        r.no_duplicates(),
{
    let idx = choose|idx: Seq<int>| selects(idx, r, src);
    assert forall|i: int, j: int| 0 <= i < r.len() && 0 <= j < r.len() && i != j implies r[i]
        != r[j] by {
        assert(idx[i] != idx[j]);
        assert(r[i] == src[idx[i]]);
        assert(r[j] == src[idx[j]]);
    }
}

/// Every item of a selection occurs in the source.
pub proof fn lemma_selection_members<A>(r: Seq<A>, src: Seq<A>)
    requires
        is_selection_of(r, src),
    ensures
        r.len() <= src.len(),
        forall|i: int| 0 <= i < r.len() ==> src.contains(#[trigger] r[i]),
{
    let idx = choose|idx: Seq<int>| selects(idx, r, src);
    assert forall|i: int| 0 <= i < r.len() implies src.contains(#[trigger] r[i]) by {
        assert(r[i] == src[idx[i]]);
    }
    lemma_injective_bounded(idx, src.len() as int);
}

/// A permutation leaves no item of the source out.
pub proof fn lemma_permutation_members<A>(r: Seq<A>, src: Seq<A>)
    requires
        is_permutation_of(r, src),
    ensures
        forall|k: int| 0 <= k < src.len() ==> r.contains(#[trigger] src[k]),
{
    let idx = choose|idx: Seq<int>| selects(idx, r, src);
    assert forall|k: int| 0 <= k < src.len() implies r.contains(#[trigger] src[k]) by {
        lemma_injective_covers(idx, src.len() as int, k);
        let i = choose|i: int| 0 <= i < idx.len() && idx[i] == k;
        assert(r[i] == src[idx[i]]);
    }
}

/// `n` pairwise different positions below `n` leave no position out.
pub proof fn lemma_injective_covers(idx: Seq<int>, n: int, v: int)
    requires
        injective_into(idx, n),
        idx.len() == n,
        0 <= v < n,
    ensures
        exists|i: int| 0 <= i < idx.len() && idx[i] == v,
{
    if !(exists|i: int| 0 <= i < idx.len() && idx[i] == v) {
        // Without `v`, closing the gap it leaves would fit `n` positions below `n - 1`.
        let shifted = Seq::new(
            idx.len(),
            |i: int|
                if idx[i] > v {
                    idx[i] - 1
                } else {
                    idx[i]
                },
        );
        assert forall|i: int| 0 <= i < shifted.len() implies 0 <= #[trigger] shifted[i] < n - 1 by {
            assert(0 <= idx[i] < n);
            assert(idx[i] != v);
        }
        assert forall|i: int, j: int|
            0 <= i < shifted.len() && 0 <= j < shifted.len() && i != j implies shifted[i]
            != shifted[j] by {
            assert(idx[i] != idx[j]);
            assert(idx[i] != v);
            assert(idx[j] != v);
        }
        lemma_injective_bounded(shifted, n - 1);
    }
}

/// Pairwise different positions below `n` number at most `n`.
pub proof fn lemma_injective_bounded(idx: Seq<int>, n: int)
    requires
        n >= 0,
        injective_into(idx, n),
    ensures
        idx.len() <= n,
    decreases n,
{
    if idx.len() > 0 {
        if n == 0 {
            assert(0 <= idx[0] < n);
        } else {
            // Drop the position that holds `n - 1`, if any, and recurse below `n - 1`.
            if exists|k: int| 0 <= k < idx.len() && idx[k] == n - 1 {
                let k = choose|k: int| 0 <= k < idx.len() && idx[k] == n - 1;
                let rest = idx.remove(k);
                assert forall|i: int| 0 <= i < rest.len() implies 0 <= #[trigger] rest[i] < n
                    - 1 by {
                    if i < k {
                        assert(rest[i] == idx[i]);
                        assert(idx[i] != idx[k]);
                    } else {
                        assert(rest[i] == idx[i + 1]);
                        assert(idx[i + 1] != idx[k]);
                    }
                }
                assert forall|i: int, j: int|
                    0 <= i < rest.len() && 0 <= j < rest.len() && i != j implies rest[i]
                    != rest[j] by {
                    let ii = if i < k { i } else { i + 1 };
                    let jj = if j < k { j } else { j + 1 };
                    assert(rest[i] == idx[ii]);
                    assert(rest[j] == idx[jj]);
                    assert(idx[ii] != idx[jj]);
                }
                lemma_injective_bounded(rest, n - 1);
            } else {
                assert forall|i: int| 0 <= i < idx.len() implies 0 <= #[trigger] idx[i] < n - 1 by {
                    assert(0 <= idx[i] < n);
                }
                lemma_injective_bounded(idx, n - 1);
            }
        }
    }
}

} // verus!
