use vstd::prelude::*;
use crate::label::LabelView;
use crate::todo::{
    first_with_id, fold, foldable, has_id, lemma_first_with_id, lemma_fold_ids, row_fits, RowView,
    TodoView,
};

verus! {

/// The place of the first row of this id in `rows`, or the length of `rows`
/// if there is none.
pub open spec fn first_row(rows: Seq<RowView>, id: i32) -> int
    decreases rows.len(),
{
    if rows.len() == 0 {
        0
    } else if rows[0].id == id {
        0
    } else {
        1 + first_row(rows.drop_first(), id)
    }
}

/// The labels that the rows of this id carry, in the order of the rows. A
/// row without a label id carries none.
pub open spec fn labels_in(rows: Seq<RowView>, id: i32) -> Seq<LabelView>
    decreases rows.len(),
{
    if rows.len() == 0 {
        Seq::empty()
    } else if rows.last().id == id && rows.last().label_id is Some {
        labels_in(rows.drop_last(), id).push(rows.last().label())
    } else {
        labels_in(rows.drop_last(), id)
    }
}

/// The task that `rows` describe under this id: text and state as the first
/// row of the id has them, and the labels of all its rows.
pub open spec fn task_in(rows: Seq<RowView>, id: i32) -> TodoView {
    let first = rows[first_row(rows, id)];
    TodoView { id, text: first.text, completed: first.completed, labels: labels_in(rows, id) }
}

/// The first row of an id is within `rows` exactly when a row has the id;
/// the row at that place has it, and none before it has.
pub proof fn lemma_first_row(rows: Seq<RowView>, id: i32)
    ensures
        0 <= first_row(rows, id) <= rows.len(),
        first_row(rows, id) < rows.len() <==> exists|j: int|
            0 <= j < rows.len() && #[trigger] rows[j].id == id,
        first_row(rows, id) < rows.len() ==> rows[first_row(rows, id)].id == id,
        forall|j: int| 0 <= j < first_row(rows, id) ==> (#[trigger] rows[j]).id != id,
    decreases rows.len(),
{
    if rows.len() == 0 {
    } else if rows[0].id == id {
    } else {
        let rest = rows.drop_first();
        lemma_first_row(rest, id);
        let k = first_row(rest, id);
        if exists|w: int| 0 <= w < rows.len() && #[trigger] rows[w].id == id {
            let w = choose|w: int| 0 <= w < rows.len() && #[trigger] rows[w].id == id;
            assert(rest[w - 1].id == id);
        }
        if k < rest.len() {
            assert(rows[k + 1].id == id);
        }
        assert forall|j: int| 0 <= j < 1 + k implies (#[trigger] rows[j]).id != id by {
            if j > 0 {
                assert(rest[j - 1].id != id);
            }
        }
    }
}

/// A row that has the id, with none before it that has, is the first row of
/// the id.
proof fn lemma_first_row_is(rows: Seq<RowView>, id: i32, f: int)
    requires
        0 <= f < rows.len(),
        rows[f].id == id,
        forall|j: int| 0 <= j < f ==> (#[trigger] rows[j]).id != id,
    ensures
        first_row(rows, id) == f,
{
    lemma_first_row(rows, id);
    let g = first_row(rows, id);
    if g < f {
        assert(rows[g].id == id);
    }
}

/// Rows of which none has the id carry no label for it.
proof fn lemma_no_labels(rows: Seq<RowView>, id: i32)
    requires
        forall|j: int| 0 <= j < rows.len() ==> (#[trigger] rows[j]).id != id,
    ensures
        labels_in(rows, id) == Seq::<LabelView>::empty(),
    decreases rows.len(),
{
    if rows.len() > 0 {
        assert(rows[rows.len() - 1].id != id);
        assert forall|j: int| 0 <= j < rows.drop_last().len() implies (
        #[trigger] rows.drop_last()[j]).id != id by {
            assert(rows[j].id != id);
        }
        lemma_no_labels(rows.drop_last(), id);
    }
}

/// What the fold is, said without the fold: the tasks of a fold are those
/// that the rows describe, one for each id, and they stand in the order in
/// which their first rows stand.
pub proof fn law_fold_is_grouping(rows: Seq<RowView>)
    requires
        foldable(rows),
    ensures
        forall|k: int|
            0 <= k < fold(rows).len() ==> first_row(rows, (#[trigger] fold(rows)[k]).id)
                < rows.len() && fold(rows)[k] == task_in(rows, fold(rows)[k].id),
        forall|a: int, b: int|
            0 <= a < b < fold(rows).len() ==> first_row(rows, fold(rows)[a].id) < first_row(
                rows,
                fold(rows)[b].id,
            ),
        forall|j: int| 0 <= j < rows.len() ==> has_id(fold(rows), (#[trigger] rows[j]).id),
    decreases rows.len(),
{
    if rows.len() == 0 {
    } else {
        let before = rows.drop_last();
        let row = rows.last();
        let n = before.len() as int;
        let todos = fold(before);
        let after = fold(rows);
        assert(rows =~= before.push(row));
        assert forall|i: int| 0 <= i < before.len() implies row_fits(before, i) by {
            assert(row_fits(rows, i));
            if exists|j: int| 0 <= j < i && #[trigger] before[j].id == before[i].id {
                let j = choose|j: int| 0 <= j < i && #[trigger] before[j].id == before[i].id;
                assert(rows[j].id == rows[i].id);
            }
        }
        law_fold_is_grouping(before);
        lemma_first_with_id(todos, row.id);
        lemma_fold_ids(before, row.id);
        lemma_first_row(before, row.id);
        let at = first_with_id(todos, row.id);
        assert(row_fits(rows, n));
        if at < todos.len() {
            let j = choose|j: int| 0 <= j < before.len() && #[trigger] before[j].id == row.id;
            assert(rows[j].id == rows[n].id);
        }
        assert forall|k: int| 0 <= k < after.len() implies first_row(
            rows,
            (#[trigger] after[k]).id,
        ) < rows.len() && after[k] == task_in(rows, after[k].id) && (k < todos.len()
            ==> first_row(rows, after[k].id) == first_row(before, todos[k].id)) && (k
            == todos.len() ==> first_row(rows, after[k].id) == n) by {
            let id = after[k].id;
            if k < todos.len() {
                assert(todos[k].id == id);
                let f = first_row(before, id);
                lemma_first_row(before, id);
                assert(rows[f] == before[f]);
                assert forall|j: int| 0 <= j < f implies (#[trigger] rows[j]).id != id by {
                    assert(before[j].id != id);
                }
                lemma_first_row_is(rows, id, f);
                if k == at {
                    assert(after[k].labels =~= labels_in(rows, id));
                }
            } else {
                assert forall|j: int| 0 <= j < n implies (#[trigger] rows[j]).id != id by {
                    if before[j].id == id {
                        assert(has_id(todos, before[j].id));
                    }
                }
                lemma_first_row_is(rows, id, n);
                assert forall|j: int| 0 <= j < before.len() implies (#[trigger] before[j]).id
                    != id by {
                    assert(rows[j].id != id);
                }
                lemma_no_labels(before, id);
                assert(after[k].labels =~= labels_in(rows, id));
            }
        }
        assert forall|j: int| 0 <= j < rows.len() implies has_id(after, (#[trigger] rows[j]).id) by {
            lemma_fold_ids(rows, rows[j].id);
        }
    }
}

/// No two tasks of a fold share an id.
pub proof fn law_fold_ids_differ(rows: Seq<RowView>, a: int, b: int)
    requires
        foldable(rows),
        0 <= a < b < fold(rows).len(),
    ensures
        fold(rows)[a].id != fold(rows)[b].id,
{
    law_fold_is_grouping(rows);
}

} // verus!
