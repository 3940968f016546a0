//! The first position in a range that has a property.
use vstd::prelude::*;

verus! {

/// The least `i` in `0..n` with `p(i)`, if any.
pub open spec fn first_index(p: spec_fn(int) -> bool, n: int) -> Option<int> {
    if exists|i: int| 0 <= i < n && #[trigger] p(i) {
        Some(choose|i: int| 0 <= i < n && #[trigger] p(i) && forall|j: int| 0 <= j < i ==> !#[trigger] p(j))
    } else {
        None
    }
}

proof fn lemma_least_index(p: spec_fn(int) -> bool, n: int)
    requires
        0 <= n,
        p(n),
    ensures
        exists|i: int| 0 <= i <= n && #[trigger] p(i) && forall|j: int| 0 <= j < i ==> !#[trigger] p(j),
    decreases n,
{
    if exists|j: int| 0 <= j < n && #[trigger] p(j) {
        let j = choose|j: int| 0 <= j < n && #[trigger] p(j);
        lemma_least_index(p, j);
    }
}

/// `first_index` is the least position with the property, and there is
/// none when no position has it.
pub proof fn lemma_first_index(p: spec_fn(int) -> bool, n: int)
    ensures
        first_index(p, n) matches Some(i) ==> 0 <= i < n && p(i) && forall|j: int|
            0 <= j < i ==> !#[trigger] p(j),
        first_index(p, n) is None ==> forall|i: int| 0 <= i < n ==> !#[trigger] p(i),
        forall|i: int|
            0 <= i < n && #[trigger] p(i) && (forall|j: int| 0 <= j < i ==> !#[trigger] p(j))
                ==> first_index(p, n) == Some(i),
{
    if exists|i: int| 0 <= i < n && #[trigger] p(i) {
        let i = choose|i: int| 0 <= i < n && #[trigger] p(i);
        lemma_least_index(p, i);
        let k = first_index(p, n)->0;
        assert forall|m: int|
            0 <= m < n && #[trigger] p(m) && (forall|j: int| 0 <= j < m ==> !#[trigger] p(j))
                implies k == m by {
            if k < m {
                assert(!p(k));
            } else if m < k {
                assert(!p(m));
            }
        }
    }
}

/// A position with the property that none before it has is the first.
pub proof fn lemma_first_index_at(p: spec_fn(int) -> bool, n: int, i: int)
    requires
        0 <= i < n,
        p(i),
        forall|j: int| 0 <= j < i ==> !#[trigger] p(j),
    ensures
        first_index(p, n) == Some(i),
{
    lemma_first_index(p, n);
}

} // verus!
