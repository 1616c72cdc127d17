//! Searching and rewriting a table of rows, as mathematics.

use vstd::prelude::*;

verus! {

/// The views of the rows of a table, in order.
pub open spec fn views<T: View>(rows: Seq<T>) -> Seq<T::V> {
    rows.map_values(|r: T| r@)
}

/// `i` is the position of the first row that satisfies `pred`.
pub open spec fn is_first<T>(rows: Seq<T>, pred: spec_fn(T) -> bool, i: int) -> bool {
    &&& 0 <= i < rows.len()
    &&& pred(rows[i])
    &&& forall|j: int| 0 <= j < i ==> !pred(#[trigger] rows[j])
}

/// The position of the first row that satisfies `pred`, if any row does.
pub open spec fn first_index<T>(rows: Seq<T>, pred: spec_fn(T) -> bool) -> Option<int> {
    if exists|i: int| is_first(rows, pred, i) {
        Some(choose|i: int| is_first(rows, pred, i))
    } else {
        None
    }
}

/// The table in which every row that satisfies `pred` is replaced by its
/// image under `f`.
pub open spec fn update_where<T>(rows: Seq<T>, pred: spec_fn(T) -> bool, f: spec_fn(T) -> T) -> Seq<
    T,
> {
    Seq::new(rows.len(), |i: int| if pred(rows[i]) { f(rows[i]) } else { rows[i] })
}

/// A first position is the first position.
pub proof fn lemma_first_index<T>(rows: Seq<T>, pred: spec_fn(T) -> bool, i: int)
    requires
        is_first(rows, pred, i),
    ensures
        first_index(rows, pred) == Some(i),
{
    let c = choose|c: int| is_first(rows, pred, c);
    assert(is_first(rows, pred, c));
    if c < i {
        assert(!pred(rows[c]));
    }
    if i < c {
        assert(!pred(rows[i]));
    }
}

/// What `first_index` finds is a first position.
pub proof fn lemma_first_index_found<T>(rows: Seq<T>, pred: spec_fn(T) -> bool)
    requires
        first_index(rows, pred) is Some,
    ensures
        is_first(rows, pred, first_index(rows, pred)->0),
{
}

proof fn lemma_least<T>(rows: Seq<T>, pred: spec_fn(T) -> bool, j: int)
    requires
        0 <= j < rows.len(),
        pred(rows[j]),
    ensures
        exists|i: int| is_first(rows, pred, i),
    decreases j,
{
    if forall|k: int| 0 <= k < j ==> !pred(#[trigger] rows[k]) {
        assert(is_first(rows, pred, j));
    } else {
        let k = choose|k: int| 0 <= k < j && pred(#[trigger] rows[k]);
        lemma_least(rows, pred, k);
    }
}

/// Where `first_index` finds nothing, no row satisfies `pred`.
pub proof fn lemma_first_index_none<T>(rows: Seq<T>, pred: spec_fn(T) -> bool)
    requires
        first_index(rows, pred) is None,
    ensures
        forall|j: int| 0 <= j < rows.len() ==> !pred(#[trigger] rows[j]),
{
    assert forall|j: int| 0 <= j < rows.len() implies !pred(#[trigger] rows[j]) by {
        if pred(rows[j]) {
            lemma_least(rows, pred, j);
        }
    }
}

/// Where no row satisfies `pred`, `first_index` finds nothing and
/// `update_where` changes nothing.
pub proof fn lemma_no_match<T>(rows: Seq<T>, pred: spec_fn(T) -> bool, f: spec_fn(T) -> T)
    requires
        forall|j: int| 0 <= j < rows.len() ==> !pred(#[trigger] rows[j]),
    ensures
        first_index(rows, pred) is None,
        update_where(rows, pred, f) == rows,
{
    assert(update_where(rows, pred, f) =~= rows);
}

} // verus!
