//! Helpers for speaking about a `Vec` of records through the records' views.
//!
//! The store keeps its rows in vectors of executable records whose text
//! fields are `String`s; contracts speak of the corresponding sequences of
//! mathematical views. These lemmas carry `push` and `update` across that
//! mapping.

use vstd::prelude::*;

verus! {

/// The sequence of views of a sequence of records.
pub open spec fn seq_views<T: View>(s: Seq<T>) -> Seq<T::V> {
    s.map_values(|t: T| t@)
}

pub proof fn lemma_views_push<T: View>(s: Seq<T>, x: T)
    ensures
        seq_views(s.push(x)) == seq_views(s).push(x@),
{
    assert(seq_views(s.push(x)) =~= seq_views(s).push(x@));
}

pub proof fn lemma_views_update<T: View>(s: Seq<T>, i: int, x: T)
    requires
        0 <= i < s.len(),
    ensures
        seq_views(s.update(i, x)) == seq_views(s).update(i, x@),
{
    assert(seq_views(s.update(i, x)) =~= seq_views(s).update(i, x@));
}

} // verus!
