//! The first index at which a predicate holds, the spec behind every
//! "find the first entry that ..." of the library.

use vstd::prelude::*;

verus! {

/// The least `i < n` with `p(i)`, or `-1` when there is none.
pub open spec fn first_where(n: nat, p: spec_fn(int) -> bool) -> int
    decreases n,
{
    if n == 0 {
        -1
    } else {
        let k = first_where((n - 1) as nat, p);
        if k >= 0 {
            k
        } else if p(n - 1) {
            n - 1
        } else {
            -1
        }
    }
}

/// `first_where` is `i` when `p` fails before `i` and holds at `i`.
pub proof fn lemma_first_where_found(n: nat, p: spec_fn(int) -> bool, i: int)
    requires
        0 <= i < n,
        p(i),
        forall|j: int| 0 <= j < i ==> !#[trigger] p(j),
    ensures
        first_where(n, p) == i,
    decreases n,
{
    if i < n - 1 {
        lemma_first_where_found((n - 1) as nat, p, i);
    } else {
        lemma_first_where_none((n - 1) as nat, p);
    }
}

/// `first_where` is `-1` when `p` fails everywhere below `n`.
pub proof fn lemma_first_where_none(n: nat, p: spec_fn(int) -> bool)
    requires
        forall|j: int| 0 <= j < n ==> !#[trigger] p(j),
    ensures
        first_where(n, p) == -1,
    decreases n,
{
    if n > 0 {
        lemma_first_where_none((n - 1) as nat, p);
    }
}

/// What `first_where` returns: `-1`, or an index where `p` holds and
/// before which it fails.
pub proof fn lemma_first_where_spec(n: nat, p: spec_fn(int) -> bool)
    ensures
        -1 <= first_where(n, p) < n,
        first_where(n, p) >= 0 ==> p(first_where(n, p)),
        forall|j: int| 0 <= j < n && (j < first_where(n, p) || first_where(n, p) == -1) ==> !#[trigger] p(j),
    decreases n,
{
    if n > 0 {
        lemma_first_where_spec((n - 1) as nat, p);
    }
}

} // verus!
