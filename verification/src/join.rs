use vstd::prelude::*;
use crate::label::{place_of_id, LabelView};
use crate::todo::{
    absorb, attached, first_with_id, fold, foldable, has_id, lemma_first_with_id, lemma_fold_ids,
    row_fits, with_label, RowView, TodoView,
};

verus! {

/// A task as a store keeps it: its own fields, and the ids of the labels
/// attached to it, in the order in which they were attached.
pub struct RecordView {
    pub id: i32,
    pub text: Seq<char>,
    pub completed: bool,
    pub label_ids: Seq<i32>,
}

impl RecordView {
    /// The task as a read returns it, with the labels that `catalogue` holds
    /// for its label ids.
    pub open spec fn todo(self, catalogue: Seq<LabelView>) -> TodoView {
        TodoView {
            id: self.id,
            text: self.text,
            completed: self.completed,
            labels: attached(catalogue, self.label_ids),
        }
    }

    /// The row of the join for the label at place `j` of the task.
    pub open spec fn labelled_row(self, catalogue: Seq<LabelView>, j: int) -> RowView {
        let label = catalogue[place_of_id(catalogue, self.label_ids[j])];
        RowView {
            id: self.id,
            text: self.text,
            completed: self.completed,
            label_id: Some(label.id),
            label_name: Some(label.name),
        }
    }

    /// The row of the join for a task without labels.
    pub open spec fn bare_row(self) -> RowView {
        RowView {
            id: self.id,
            text: self.text,
            completed: self.completed,
            label_id: None,
            label_name: None,
        }
    }

    /// The rows of the left outer join for the record: one for each attached
    /// label, in their order, or one with empty label fields if there is none.
    pub open spec fn rows(self, catalogue: Seq<LabelView>) -> Seq<RowView> {
        if self.label_ids.len() == 0 {
            seq![self.bare_row()]
        } else {
            Seq::new(self.label_ids.len(), |j: int| self.labelled_row(catalogue, j))
        }
    }

    /// The task with only the first `n` of its labels.
    pub open spec fn first_labels(self, n: int) -> RecordView {
        RecordView { label_ids: self.label_ids.take(n), ..self }
    }
}

/// The rows of the left outer join for `records`, task after task in the
/// order of `records`.
pub open spec fn join(records: Seq<RecordView>, catalogue: Seq<LabelView>) -> Seq<RowView>
    decreases records.len(),
{
    if records.len() == 0 {
        Seq::empty()
    } else {
        join(records.drop_last(), catalogue) + records.last().rows(catalogue)
    }
}

/// The tasks of `records` as a read returns them, in the order of `records`.
pub open spec fn todos_of(records: Seq<RecordView>, catalogue: Seq<LabelView>) -> Seq<TodoView> {
    Seq::new(records.len(), |k: int| records[k].todo(catalogue))
}

/// Whether no two of `records` share an id.
pub open spec fn distinct_ids(records: Seq<RecordView>) -> bool {
    forall|i: int, j: int| 0 <= i < j < records.len() ==> records[i].id != records[j].id
}

/// Whether a row of `rows` has this id.
pub open spec fn row_has_id(rows: Seq<RowView>, id: i32) -> bool {
    exists|j: int| 0 <= j < rows.len() && #[trigger] rows[j].id == id
}

/// Folding more rows: the fold of `rows` followed by `row` is the fold of
/// `rows` with `row` absorbed.
proof fn lemma_fold_push(rows: Seq<RowView>, row: RowView)
    ensures
        fold(rows.push(row)) == absorb(fold(rows), row),
{
    assert(rows.push(row).drop_last() =~= rows);
}

/// A task that has the id stands behind tasks that do not: its place is the
/// first of that id.
proof fn lemma_first_at_end(todos: Seq<TodoView>, todo: TodoView)
    requires
        !has_id(todos, todo.id),
    ensures
        first_with_id(todos.push(todo), todo.id) == todos.len(),
{
    let all = todos.push(todo);
    lemma_first_with_id(all, todo.id);
    lemma_first_with_id(todos, todo.id);
    assert(all[todos.len() as int].id == todo.id);
    let p = first_with_id(all, todo.id);
    if p < todos.len() {
        assert(todos[p].id == todo.id);
    }
}

/// Folding the first `n` rows of a task behind rows of other tasks adds the
/// task with its first `n` labels at the end, and those rows can be folded.
proof fn lemma_fold_task_rows(
    before: Seq<RowView>,
    record: RecordView,
    catalogue: Seq<LabelView>,
    n: int,
)
    requires
        foldable(before),
        !row_has_id(before, record.id),
        1 <= n <= record.rows(catalogue).len(),
    ensures
        foldable(before + record.rows(catalogue).take(n)),
        fold(before + record.rows(catalogue).take(n)) == fold(before).push(
            if record.label_ids.len() == 0 {
                record.todo(catalogue)
            } else {
                record.first_labels(n).todo(catalogue)
            },
        ),
    decreases n,
{
    let rows = record.rows(catalogue);
    let folded = fold(before);
    lemma_fold_ids(before, record.id);
    if n == 1 {
        let row = rows[0];
        assert(before + rows.take(1) =~= before.push(row));
        lemma_fold_push(before, row);
        lemma_first_with_id(folded, record.id);
        let all = before.push(row);
        assert forall|i: int| 0 <= i < all.len() implies row_fits(all, i) by {
            if i < before.len() {
                assert(row_fits(before, i));
                if exists|j: int| 0 <= j < i && #[trigger] all[j].id == all[i].id {
                    let j = choose|j: int| 0 <= j < i && #[trigger] all[j].id == all[i].id;
                    assert(before[j].id == before[i].id);
                }
            } else {
                if exists|j: int| 0 <= j < i && #[trigger] all[j].id == all[i].id {
                    let j = choose|j: int| 0 <= j < i && #[trigger] all[j].id == all[i].id;
                    assert(before[j].id == record.id);
                }
            }
        }
        if record.label_ids.len() == 0 {
            assert(row.opens().labels =~= record.todo(catalogue).labels);
        } else {
            assert(row.opens().labels =~= record.first_labels(1).todo(catalogue).labels);
        }
    } else {
        lemma_fold_task_rows(before, record, catalogue, n - 1);
        let row = rows[n - 1];
        let so_far = before + rows.take(n - 1);
        let shorter = record.first_labels(n - 1).todo(catalogue);
        let longer = record.first_labels(n).todo(catalogue);
        assert(before + rows.take(n) =~= so_far.push(row));
        lemma_fold_push(so_far, row);
        lemma_first_at_end(folded, shorter);
        assert(with_label(shorter, row.label()).labels =~= longer.labels);
        assert(fold(so_far).update(folded.len() as int, longer) =~= folded.push(longer));
        let all = so_far.push(row);
        assert forall|i: int| 0 <= i < all.len() implies row_fits(all, i) by {
            if i < so_far.len() {
                assert(row_fits(so_far, i));
                if exists|j: int| 0 <= j < i && #[trigger] all[j].id == all[i].id {
                    let j = choose|j: int| 0 <= j < i && #[trigger] all[j].id == all[i].id;
                    assert(so_far[j].id == so_far[i].id);
                }
            }
        }
    }
}

/// Folding all the rows of a task behind rows of other tasks adds the task
/// with its labels at the end.
pub proof fn lemma_fold_task(before: Seq<RowView>, record: RecordView, catalogue: Seq<LabelView>)
    requires
        foldable(before),
        !row_has_id(before, record.id),
    ensures
        foldable(before + record.rows(catalogue)),
        fold(before + record.rows(catalogue)) == fold(before).push(record.todo(catalogue)),
{
    let rows = record.rows(catalogue);
    lemma_fold_task_rows(before, record, catalogue, rows.len() as int);
    assert(rows.take(rows.len() as int) =~= rows);
    if record.label_ids.len() > 0 {
        assert(record.label_ids.take(record.label_ids.len() as int) =~= record.label_ids);
    }
}

/// A row of the join has the id of one of the tasks.
pub proof fn lemma_join_ids(records: Seq<RecordView>, catalogue: Seq<LabelView>, id: i32)
    requires
        row_has_id(join(records, catalogue), id),
    ensures
        exists|k: int| 0 <= k < records.len() && #[trigger] records[k].id == id,
    decreases records.len(),
{
    if records.len() > 0 {
        let first = join(records.drop_last(), catalogue);
        let rows = join(records, catalogue);
        let j = choose|j: int| 0 <= j < rows.len() && #[trigger] rows[j].id == id;
        if j < first.len() {
            assert(first[j].id == id);
            lemma_join_ids(records.drop_last(), catalogue, id);
            let k = choose|k: int|
                0 <= k < records.drop_last().len() && #[trigger] records.drop_last()[k].id == id;
            assert(records[k].id == id);
        } else {
            assert(records[records.len() - 1].id == id);
        }
    }
}

/// The fold undoes the join: folding the joined rows of tasks with distinct
/// ids gives each task with its labels, in the order of the tasks. A task
/// without labels is among them.
pub proof fn lemma_fold_join(records: Seq<RecordView>, catalogue: Seq<LabelView>)
    requires
        distinct_ids(records),
    ensures
        foldable(join(records, catalogue)),
        fold(join(records, catalogue)) == todos_of(records, catalogue),
    decreases records.len(),
{
    if records.len() == 0 {
        assert(fold(join(records, catalogue)) =~= todos_of(records, catalogue));
    } else {
        let earlier = records.drop_last();
        let record = records.last();
        lemma_fold_join(earlier, catalogue);
        if row_has_id(join(earlier, catalogue), record.id) {
            lemma_join_ids(earlier, catalogue, record.id);
            let k = choose|k: int| 0 <= k < earlier.len() && #[trigger] earlier[k].id == record.id;
            assert(records[k].id == records[records.len() - 1].id);
        }
        lemma_fold_task(join(earlier, catalogue), record, catalogue);
        assert(todos_of(earlier, catalogue).push(record.todo(catalogue)) =~= todos_of(
            records,
            catalogue,
        ));
    }
}

} // verus!
