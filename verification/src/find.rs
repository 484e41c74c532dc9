//! "First/last element satisfying a predicate" in specifications.

use vstd::prelude::*;

verus! {

/// `p` is the first position of `s` whose element satisfies `pred`.
pub open spec fn is_first_where<T>(s: Seq<T>, pred: spec_fn(T) -> bool, p: int) -> bool {
    &&& 0 <= p < s.len()
    &&& pred(s[p])
    &&& forall|q: int| 0 <= q < p ==> !pred(#[trigger] s[q])
}

/// `p` is the last position of `s` whose element satisfies `pred`.
pub open spec fn is_last_where<T>(s: Seq<T>, pred: spec_fn(T) -> bool, p: int) -> bool {
    &&& 0 <= p < s.len()
    &&& pred(s[p])
    &&& forall|q: int| p < q < s.len() ==> !pred(#[trigger] s[q])
}

/// There is at most one first position.
pub proof fn lemma_first_unique<T>(s: Seq<T>, pred: spec_fn(T) -> bool, p1: int, p2: int)
    requires
        is_first_where(s, pred, p1),
        is_first_where(s, pred, p2),
    ensures
        p1 == p2,
{
}

/// There is at most one last position.
pub proof fn lemma_last_unique<T>(s: Seq<T>, pred: spec_fn(T) -> bool, p1: int, p2: int)
    requires
        is_last_where(s, pred, p1),
        is_last_where(s, pred, p2),
    ensures
        p1 == p2,
{
}

/// The first position of `s` whose element satisfies `pred`, if any.
pub open spec fn first_where<T>(s: Seq<T>, pred: spec_fn(T) -> bool) -> Option<int> {
    if exists|p: int| is_first_where(s, pred, p) {
        Some(choose|p: int| is_first_where(s, pred, p))
    } else {
        None
    }
}

/// A position that is first is the one `first_where` names.
pub proof fn lemma_first_where_some<T>(s: Seq<T>, pred: spec_fn(T) -> bool, p: int)
    requires
        is_first_where(s, pred, p),
    ensures
        first_where(s, pred) == Some(p),
{
    let c = choose|c: int| is_first_where(s, pred, c);
    lemma_first_unique(s, pred, c, p);
}

/// Where no element satisfies `pred`, `first_where` names nothing.
pub proof fn lemma_first_where_none<T>(s: Seq<T>, pred: spec_fn(T) -> bool)
    requires
        forall|q: int| 0 <= q < s.len() ==> !pred(#[trigger] s[q]),
    ensures
        first_where(s, pred) is None,
{
}

/// The last position of `s` whose element satisfies `pred`, if any.
pub open spec fn last_where<T>(s: Seq<T>, pred: spec_fn(T) -> bool) -> Option<int> {
    if exists|p: int| is_last_where(s, pred, p) {
        Some(choose|p: int| is_last_where(s, pred, p))
    } else {
        None
    }
}

/// A position that is last is the one `last_where` names.
pub proof fn lemma_last_where_some<T>(s: Seq<T>, pred: spec_fn(T) -> bool, p: int)
    requires
        is_last_where(s, pred, p),
    ensures
        last_where(s, pred) == Some(p),
{
    let c = choose|c: int| is_last_where(s, pred, c);
    lemma_last_unique(s, pred, c, p);
}

/// Where no element satisfies `pred`, `last_where` names nothing.
pub proof fn lemma_last_where_none<T>(s: Seq<T>, pred: spec_fn(T) -> bool)
    requires
        forall|q: int| 0 <= q < s.len() ==> !pred(#[trigger] s[q]),
    ensures
        last_where(s, pred) is None,
{
}

} // verus!
