//! How tables and lists of rows appear in contracts.

use vstd::prelude::*;

verus! {

/// The rows of a table as contracts see them: each row by its view, in the
/// order of the table.
pub open spec fn views<T: View>(rows: Seq<T>) -> Seq<T::V> {
    Seq::new(rows.len(), |i: int| rows[i]@)
}

/// The views of a table that got one more row are those of the table, and
/// that of the row after them.
pub proof fn lemma_views_push<T: View>(rows: Seq<T>, row: T)
    ensures
        views(rows.push(row)) == views(rows).push(row@),
{
    assert(views(rows.push(row)) =~= views(rows).push(row@));
}

} // verus!
