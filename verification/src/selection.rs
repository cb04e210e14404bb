//! Deletion vectors: which rows of each batch of a file are kept.

use vstd::prelude::*;

verus! {

/// Which of the next `rows` rows are kept, by the selection of the rows that are still to come. A
/// row beyond the end of the selection is kept.
pub open spec fn selected(rest: Seq<bool>, rows: nat) -> Seq<bool> {
    Seq::new(
        rows,
        |i: int|
            if i < rest.len() {
                rest[i]
            } else {
                true
            },
    )
}

/// The selection of the rows that are still to come after the next `rows`.
pub open spec fn left_over(rest: Seq<bool>, rows: nat) -> Seq<bool> {
    if rows <= rest.len() {
        rest.skip(rows as int)
    } else {
        Seq::empty()
    }
}

/// Takes the selection of the next `rows` rows off `rest`: first which of those rows are kept, then
/// the selection of the rows after them.
pub fn take_selection(rest: Vec<bool>, rows: usize) -> (taken: (Vec<bool>, Vec<bool>))
    ensures
        taken.0@ == selected(rest@, rows as nat),
        taken.1@ == left_over(rest@, rows as nat),
        taken.0@.len() == rows,
        forall|i: int|
            #![trigger taken.0@[i]]
            0 <= i < rows ==> (!taken.0@[i] <==> i < rest@.len() && !rest@[i]),
        taken.1@.len() == if rows <= rest@.len() {
            rest@.len() - rows
        } else {
            0
        },
        forall|j: int|
            #![trigger taken.1@[j]]
            0 <= j < taken.1@.len() ==> taken.1@[j] == rest@[rows + j],
{
    let mut own = rest;
    if rows <= own.len() {
        let later = own.split_off(rows);
        assert(own@ =~= selected(rest@, rows as nat));
        (own, later)
    } else {
        while own.len() < rows
            invariant
                rest@.len() <= own@.len() <= rows,
                own@ =~= selected(rest@, own@.len()),
            decreases rows - own@.len(),
        {
            own.push(true);
        }
        (own, Vec::new())
    }
}

/// A row is gone exactly if the file's deletion vector deletes it, and every row that is not
/// deleted is kept. The selection that is left over says the same of the rows that come later.
pub proof fn exactly_the_deleted_rows_are_gone(rest: Seq<bool>, rows: nat)
    ensures
        selected(rest, rows).len() == rows,
        forall|i: int|
            #![trigger selected(rest, rows)[i]]
            0 <= i < rows && i < rest.len() ==> selected(rest, rows)[i] == rest[i],
        forall|i: int|
            #![trigger selected(rest, rows)[i]]
            rest.len() <= i < rows ==> selected(rest, rows)[i],
        rows <= rest.len() ==> left_over(rest, rows).len() == rest.len() - rows,
        rows > rest.len() ==> left_over(rest, rows).len() == 0,
        forall|j: int|
            #![trigger left_over(rest, rows)[j]]
            0 <= j < left_over(rest, rows).len() ==> left_over(rest, rows)[j] == rest[rows + j],
{
}

/// Which rows of a file are kept that is read in batches of so many rows each.
pub open spec fn kept_rows(rest: Seq<bool>, batches: Seq<nat>) -> Seq<bool>
    decreases batches.len(),
{
    if batches.len() == 0 {
        Seq::empty()
    } else {
        selected(rest, batches[0]) + kept_rows(left_over(rest, batches[0]), batches.drop_first())
    }
}

/// However a file is cut into batches, one row of the whole file is gone exactly if the deletion
/// vector deletes the row at that position.
pub proof fn deletions_hold_for_the_whole_file(rest: Seq<bool>, batches: Seq<nat>, row: int)
    requires
        0 <= row < kept_rows(rest, batches).len(),
    ensures
        !kept_rows(rest, batches)[row] <==> row < rest.len() && !rest[row],
    decreases batches.len(),
{
    let first = batches[0];
    exactly_the_deleted_rows_are_gone(rest, first);
    if row >= first {
        let later = left_over(rest, first);
        deletions_hold_for_the_whole_file(later, batches.drop_first(), row - first);
        if row - first < later.len() {
            assert(later[row - first] == rest[row]);
        }
    }
}

/// It does not matter how a file is cut into batches: two batches in a row keep what one batch of
/// all their rows keeps, and leave over the same.
pub proof fn selection_is_independent_of_batches(rest: Seq<bool>, first: nat, second: nat)
    ensures
        selected(rest, first) + selected(left_over(rest, first), second) == selected(
            rest,
            first + second,
        ),
        left_over(left_over(rest, first), second) == left_over(rest, first + second),
{
    assert(selected(rest, first) + selected(left_over(rest, first), second) =~= selected(
        rest,
        first + second,
    ));
    assert(left_over(left_over(rest, first), second) =~= left_over(rest, first + second));
}

} // verus!
