use vstd::prelude::*;
use crate::error::{unit_outcome, ErrorView, RepositoryError};
use crate::join::{distinct_ids, join, lemma_fold_join, lemma_fold_task, todos_of, RecordView};
use crate::label::{find_label_id, label_views, Label, LabelView};
use crate::todo::{
    attachable, attached, create_todo_post, created, delete_todo_post, descending_ids,
    find_in_rows, first_or_missing, first_with_id, fold, fold_entities, foldable, has_id,
    lemma_first_with_id, row_views, todo_outcome, update_todo_post, updated, CreateTodo,
    CreateView, RowView, TodoEntity, TodoRepository, TodoView, TodoWithLabelFromRow, UpdateTodo,
    UpdateView,
};

verus! {

/// The mathematical value of a [`TodoRepositoryForMemory`]: the tasks by
/// ascending id, each with the ids of its labels; the labels that can be
/// attached; and the highest id given out so far.
pub struct TodoStoreView {
    pub records: Seq<RecordView>,
    pub labels: Seq<LabelView>,
    pub last_id: i32,
}

/// The message of the failure to make a task when every id has been given.
pub open spec fn no_todo_id_left() -> Seq<char> {
    "no task id is left"@
}

/// The message of the failure to attach labels of which one is unknown or
/// named twice.
pub open spec fn labels_do_not_attach() -> Seq<char> {
    "a label id is unknown or repeated"@
}

impl TodoStoreView {
    /// The ids ascend, each lies between one and the last id given, and the
    /// labels of each task can be attached: each is known and none comes
    /// twice.
    pub open spec fn valid(self) -> bool {
        &&& forall|i: int, j: int|
            0 <= i < j < self.records.len() ==> self.records[i].id < self.records[j].id
        &&& forall|k: int|
            0 <= k < self.records.len() ==> 1 <= (#[trigger] self.records[k]).id <= self.last_id
        &&& forall|k: int|
            0 <= k < self.records.len() ==> attachable(
                self.labels,
                (#[trigger] self.records[k]).label_ids,
            )
        &&& 0 <= self.last_id
    }

    /// The tasks as they are kept, the newest first.
    pub open spec fn newest_first(self) -> Seq<RecordView> {
        Seq::new(self.records.len(), |k: int| self.records[self.records.len() - 1 - k])
    }

    /// Every task with its labels, by descending id.
    pub open spec fn todos(self) -> Seq<TodoView> {
        todos_of(self.newest_first(), self.labels)
    }

    /// The place among the records of the task of this id, if there is one.
    pub open spec fn place(self, id: i32) -> int {
        self.records.len() - 1 - first_with_id(self.todos(), id)
    }

    /// What `find` gives on this store.
    pub open spec fn find_outcome(self, id: i32) -> Result<TodoView, ErrorView> {
        if has_id(self.todos(), id) {
            Ok(self.todos()[first_with_id(self.todos(), id)])
        } else {
            Err(ErrorView::NotFound(id))
        }
    }

    /// What `create` gives on this store: a failure if no id is left or the
    /// labels cannot be attached, else the new task under the id after the
    /// last one given.
    pub open spec fn create_outcome(self, payload: CreateView) -> Result<TodoView, ErrorView> {
        if self.last_id == i32::MAX {
            Err(ErrorView::Unexpected(no_todo_id_left()))
        } else if !attachable(self.labels, payload.labels) {
            Err(ErrorView::Unexpected(labels_do_not_attach()))
        } else {
            Ok(created(self.labels, (self.last_id + 1) as i32, payload))
        }
    }

    /// The store after `create`: with the new task where one was made,
    /// unchanged otherwise.
    pub open spec fn after_create(self, payload: CreateView) -> TodoStoreView {
        if self.create_outcome(payload) is Ok {
            let id = (self.last_id + 1) as i32;
            TodoStoreView {
                records: self.records.push(
                    RecordView {
                        id,
                        text: payload.text,
                        completed: false,
                        label_ids: payload.labels,
                    },
                ),
                labels: self.labels,
                last_id: id,
            }
        } else {
            self
        }
    }

    /// What `update` gives on this store: `NotFound` where no task has the
    /// id, a failure where the payload has labels that cannot be attached,
    /// else the task after the change.
    pub open spec fn update_outcome(self, id: i32, payload: UpdateView) -> Result<
        TodoView,
        ErrorView,
    > {
        if !has_id(self.todos(), id) {
            Err(ErrorView::NotFound(id))
        } else if payload.labels is Some && !attachable(self.labels, payload.labels.unwrap()) {
            Err(ErrorView::Unexpected(labels_do_not_attach()))
        } else {
            Ok(updated(self.labels, self.todos()[first_with_id(self.todos(), id)], payload))
        }
    }

    /// The store after `update`: the task changed where the update
    /// succeeded, unchanged otherwise.
    pub open spec fn after_update(self, id: i32, payload: UpdateView) -> TodoStoreView {
        if self.update_outcome(id, payload) is Ok {
            let r = self.place(id);
            let record = self.records[r];
            TodoStoreView {
                records: self.records.update(
                    r,
                    RecordView {
                        id: record.id,
                        text: payload.text_over(record.text),
                        completed: payload.completed_over(record.completed),
                        label_ids: match payload.labels {
                            Some(ids) => ids,
                            None => record.label_ids,
                        },
                    },
                ),
                ..self
            }
        } else {
            self
        }
    }

    /// What `delete` gives on this store.
    pub open spec fn delete_outcome(self, id: i32) -> Result<(), ErrorView> {
        if has_id(self.todos(), id) {
            Ok(())
        } else {
            Err(ErrorView::NotFound(id))
        }
    }

    /// The store after `delete`: without the task of that id and the ids of
    /// its labels, if it had such a task.
    pub open spec fn after_delete(self, id: i32) -> TodoStoreView {
        if has_id(self.todos(), id) {
            TodoStoreView { records: self.records.remove(self.place(id)), ..self }
        } else {
            self
        }
    }

    /// In a valid store the tasks come by strictly descending id.
    pub proof fn lemma_descending(self)
        requires
            self.valid(),
        ensures
            descending_ids(self.todos()),
            distinct_ids(self.newest_first()),
    {
    }

    /// In a valid store the record at place `r` is the first task of its id
    /// among the tasks.
    pub proof fn lemma_place_of_record(self, r: int)
        requires
            self.valid(),
            0 <= r < self.records.len(),
        ensures
            has_id(self.todos(), self.records[r].id),
            self.place(self.records[r].id) == r,
            self.todos()[first_with_id(self.todos(), self.records[r].id)] == self.records[r].todo(
                self.labels,
            ),
    {
        let id = self.records[r].id;
        let todos = self.todos();
        let n = self.records.len();
        lemma_first_with_id(todos, id);
        assert(todos[n - 1 - r].id == id);
        let p = first_with_id(todos, id);
        assert(todos[p].id == self.records[n - 1 - p].id);
    }

    /// An id that no record has is the id of no task.
    pub proof fn lemma_no_record(self, id: i32)
        requires
            forall|k: int| 0 <= k < self.records.len() ==> (#[trigger] self.records[k]).id != id,
        ensures
            !has_id(self.todos(), id),
    {
        let todos = self.todos();
        if has_id(todos, id) {
            let k = choose|k: int| 0 <= k < todos.len() && #[trigger] todos[k].id == id;
            assert(self.records[self.records.len() - 1 - k].id == id);
        }
    }
}

impl TodoStoreView {
    /// `create` keeps the store valid and does what every task store
    /// promises; a `find` of the new id then gives the new task.
    pub proof fn lemma_create(self, payload: CreateView)
        requires
            self.valid(),
        ensures
            self.after_create(payload).valid(),
            self.after_create(payload).labels == self.labels,
            create_todo_post(
                self.todos(),
                self.labels,
                payload,
                self.create_outcome(payload),
                self.after_create(payload).todos(),
            ),
            self.create_outcome(payload) is Ok ==> self.after_create(payload).find_outcome(
                (self.last_id + 1) as i32,
            ) == self.create_outcome(payload),
    {
        if self.create_outcome(payload) is Ok {
            let after = self.after_create(payload);
            let n = self.records.len() as int;
            let id = (self.last_id + 1) as i32;
            let record = after.records[n];
            assert forall|i: int, j: int| 0 <= i < j < after.records.len() implies after.records[i].id
                < after.records[j].id by {
                if j == n {
                    assert(self.records[i].id <= self.last_id);
                }
            }
            assert forall|k: int| 0 <= k < after.records.len() implies attachable(
                after.labels,
                (#[trigger] after.records[k]).label_ids,
            ) && 1 <= after.records[k].id <= after.last_id by {
                if k < n {
                    assert(after.records[k] == self.records[k]);
                }
            }
            after.lemma_place_of_record(n);
            assert(after.todos() =~= seq![record.todo(self.labels)] + self.todos());
            assert forall|k: int| 0 <= k < self.todos().len() implies (#[trigger] self.todos()[k]).id
                < id by {
                assert(self.records[n - 1 - k].id <= self.last_id);
            }
        }
    }

    /// `update` keeps the store valid and does what every task store
    /// promises; a `find` of the id then gives the task as changed.
    pub proof fn lemma_update(self, id: i32, payload: UpdateView)
        requires
            self.valid(),
        ensures
            self.after_update(id, payload).valid(),
            self.after_update(id, payload).labels == self.labels,
            update_todo_post(
                self.todos(),
                self.labels,
                id,
                payload,
                self.update_outcome(id, payload),
                self.after_update(id, payload).todos(),
            ),
            self.update_outcome(id, payload) is Ok ==> self.after_update(id, payload).find_outcome(
                id,
            ) == self.update_outcome(id, payload),
    {
        if self.update_outcome(id, payload) is Ok {
            let after = self.after_update(id, payload);
            let n = self.records.len() as int;
            let k = first_with_id(self.todos(), id);
            let r = self.place(id);
            lemma_first_with_id(self.todos(), id);
            assert(self.todos()[k].id == self.records[r].id);
            self.lemma_place_of_record(r);
            let record = after.records[r];
            assert forall|i: int, j: int| 0 <= i < j < after.records.len() implies after.records[i].id
                < after.records[j].id by {
                assert(after.records[i].id == self.records[i].id);
                assert(after.records[j].id == self.records[j].id);
            }
            assert forall|m: int| 0 <= m < after.records.len() implies attachable(
                after.labels,
                (#[trigger] after.records[m]).label_ids,
            ) && 1 <= after.records[m].id <= after.last_id by {
                if m != r {
                    assert(after.records[m] == self.records[m]);
                } else {
                    assert(attachable(self.labels, self.records[m].label_ids));
                    assert(after.records[m].id == self.records[m].id);
                }
            }
            after.lemma_place_of_record(r);
            assert(record.todo(self.labels) == updated(self.labels, self.todos()[k], payload));
            assert(after.todos() =~= self.todos().update(k, record.todo(self.labels)));
        }
    }

    /// `delete` keeps the store valid and does what every task store
    /// promises; no task has the id afterwards.
    pub proof fn lemma_delete(self, id: i32)
        requires
            self.valid(),
        ensures
            self.after_delete(id).valid(),
            self.after_delete(id).labels == self.labels,
            delete_todo_post(
                self.todos(),
                id,
                self.delete_outcome(id),
                self.after_delete(id).todos(),
            ),
            !has_id(self.after_delete(id).todos(), id),
    {
        if has_id(self.todos(), id) {
            let after = self.after_delete(id);
            let n = self.records.len() as int;
            let k = first_with_id(self.todos(), id);
            let r = self.place(id);
            lemma_first_with_id(self.todos(), id);
            assert(self.todos()[k].id == self.records[r].id);
            assert forall|m: int| 0 <= m < after.records.len() implies 1 <= (
            #[trigger] after.records[m]).id <= after.last_id && attachable(
                after.labels,
                after.records[m].label_ids,
            ) && after.records[m].id != id by {
                let a = if m < r { m } else { m + 1 };
                assert(after.records[m] == self.records[a]);
            }
            assert forall|i: int, j: int| 0 <= i < j < after.records.len() implies after.records[i].id
                < after.records[j].id by {
                let a = if i < r { i } else { i + 1 };
                let b = if j < r { j } else { j + 1 };
                assert(after.records[i] == self.records[a]);
                assert(after.records[j] == self.records[b]);
            }
            assert(after.todos() =~= self.todos().remove(k));
            after.lemma_no_record(id);
        }
    }
}

/// A task as the store keeps it.
struct TodoRecord {
    id: i32,
    text: String,
    completed: bool,
    label_ids: Vec<i32>,
}

impl View for TodoRecord {
    type V = RecordView;

    closed spec fn view(&self) -> RecordView {
        RecordView {
            id: self.id,
            text: self.text@,
            completed: self.completed,
            label_ids: self.label_ids@,
        }
    }
}

/// The values of a sequence of records, in order.
spec fn record_views(records: Seq<TodoRecord>) -> Seq<RecordView> {
    records.map_values(|record: TodoRecord| record@)
}

/// The task store that lives in memory. It keeps each task with the ids of
/// its labels and joins them with the labels on every read.
pub struct TodoRepositoryForMemory {
    records: Vec<TodoRecord>,
    labels: Vec<Label>,
    last_id: i32,
}

impl View for TodoRepositoryForMemory {
    type V = TodoStoreView;

    closed spec fn view(&self) -> TodoStoreView {
        TodoStoreView {
            records: record_views(self.records@),
            labels: label_views(self.labels@),
            last_id: self.last_id,
        }
    }
}

/// Whether labels of these ids can be attached to one task.
pub fn can_attach(labels: &Vec<Label>, ids: &Vec<i32>) -> (answer: bool)
    ensures
        answer == attachable(label_views(labels@), ids@),
{
    let ghost catalogue = label_views(labels@);
    let mut j: usize = 0;
    while j < ids.len()
        invariant
            j <= ids.len(),
            catalogue == label_views(labels@),
            forall|m: int| 0 <= m < j ==> crate::label::has_label_id(catalogue, #[trigger] ids@[m]),
            forall|a: int, b: int| 0 <= a < b < j ==> ids@[a] != ids@[b],
        decreases ids.len() - j,
    {
        let id = ids[j];
        if find_label_id(labels, id) == labels.len() {
            return false;
        }
        let mut i: usize = 0;
        while i < j
            invariant
                i <= j < ids.len(),
                id == ids@[j as int],
                forall|a: int| 0 <= a < i ==> ids@[a] != id,
            decreases j - i,
        {
            if ids[i] == id {
                return false;
            }
            i += 1;
        }
        j += 1;
    }
    true
}

impl TodoRepositoryForMemory {
    /// A store without tasks that can attach no label.
    pub fn new() -> (store: Self)
        ensures
            store@.valid(),
            store@ == (TodoStoreView { records: Seq::empty(), labels: Seq::empty(), last_id: 0 }),
    {
        let store = TodoRepositoryForMemory {
            records: Vec::new(),
            labels: Vec::new(),
            last_id: 0,
        };
        proof {
            assert(record_views(store.records@) =~= Seq::empty());
            assert(label_views(store.labels@) =~= Seq::empty());
        }
        store
    }

    /// A store without tasks that can attach these labels. Where two of them
    /// share an id, the first is the label of that id.
    pub fn with_labels(labels: Vec<Label>) -> (store: Self)
        ensures
            store@.valid(),
            store@ == (TodoStoreView {
                records: Seq::empty(),
                labels: label_views(labels@),
                last_id: 0,
            }),
    {
        let store = TodoRepositoryForMemory { records: Vec::new(), labels, last_id: 0 };
        proof {
            assert(record_views(store.records@) =~= Seq::empty());
        }
        store
    }

    /// The place of the record of this id, or the number of records if there
    /// is none.
    fn position(&self, id: i32) -> (r: usize)
        ensures
            r <= self.records.len(),
            r < self.records.len() ==> self@.records[r as int].id == id,
            r == self.records.len() ==> forall|k: int|
                0 <= k < self@.records.len() ==> (#[trigger] self@.records[k]).id != id,
    {
        let mut r: usize = 0;
        while r < self.records.len()
            invariant
                r <= self.records.len(),
                forall|k: int| 0 <= k < r ==> (#[trigger] self@.records[k]).id != id,
            decreases self.records.len() - r,
        {
            if self.records[r].id == id {
                return r;
            }
            r += 1;
        }
        r
    }

    /// Puts the rows of the join for the record at place `r` behind `rows`.
    fn push_rows(&self, r: usize, rows: &mut Vec<TodoWithLabelFromRow>)
        requires
            self@.valid(),
            r < self.records.len(),
        ensures
            row_views(final(rows)@) == row_views(old(rows)@) + self@.records[r as int].rows(
                self@.labels,
            ),
    {
        let record = &self.records[r];
        let ghost view = self@.records[r as int];
        let ghost catalogue = self@.labels;
        let ghost before = row_views(rows@);
        assert(view == record@);
        assert(attachable(catalogue, view.label_ids));
        if record.label_ids.len() == 0 {
            let ghost stored = rows@;
            let row = TodoWithLabelFromRow {
                id: record.id,
                text: record.text.clone(),
                completed: record.completed,
                label_id: None,
                label_name: None,
            };
            rows.push(row);
            proof {
                assert(row@ == view.bare_row());
                assert(row_views(stored.push(row)) =~= before + view.rows(catalogue));
            }
        } else {
            let mut j: usize = 0;
            proof {
                assert(row_views(rows@) =~= before + view.rows(catalogue).take(0));
            }
            while j < record.label_ids.len()
                invariant
                    j <= record.label_ids.len(),
                    record.label_ids.len() > 0,
                    view == record@,
                    catalogue == label_views(self.labels@),
                    attachable(catalogue, view.label_ids),
                    row_views(rows@) == before + view.rows(catalogue).take(j as int),
                decreases record.label_ids.len() - j,
            {
                let ghost stored = rows@;
                let label_id = record.label_ids[j];
                assert(label_id == view.label_ids[j as int]);
                let place = find_label_id(&self.labels, label_id);
                let label = &self.labels[place];
                let row = TodoWithLabelFromRow {
                    id: record.id,
                    text: record.text.clone(),
                    completed: record.completed,
                    label_id: Some(label.id),
                    label_name: Some(label.name.clone()),
                };
                rows.push(row);
                proof {
                    assert(label@ == catalogue[place as int]);
                    assert(row@ == view.labelled_row(catalogue, j as int));
                    assert(view.rows(catalogue).take(j + 1) =~= view.rows(catalogue).take(
                        j as int,
                    ).push(view.rows(catalogue)[j as int]));
                    assert(row_views(stored.push(row)) =~= row_views(stored).push(row@));
                    assert((before + view.rows(catalogue).take(j as int)).push(row@) =~= before
                        + view.rows(catalogue).take(j + 1));
                }
                j += 1;
            }
            proof {
                assert(view.rows(catalogue).take(j as int) =~= view.rows(catalogue));
            }
        }
    }
}

impl TodoRepositoryForMemory {
    /// The rows of the join for the task of this id: none where no task has
    /// the id.
    fn rows_of(&self, id: i32) -> (rows: Vec<TodoWithLabelFromRow>)
        requires
            self@.valid(),
        ensures
            foldable(row_views(rows@)),
            first_or_missing(fold(row_views(rows@)), id) == self@.find_outcome(id),
    {
        let mut rows: Vec<TodoWithLabelFromRow> = Vec::new();
        let r = self.position(id);
        proof {
            assert(row_views(rows@) =~= Seq::empty());
        }
        if r < self.records.len() {
            self.push_rows(r, &mut rows);
            proof {
                let record = self@.records[r as int];
                let none = Seq::<RowView>::empty();
                assert(none + record.rows(self@.labels) =~= record.rows(self@.labels));
                lemma_fold_task(none, record, self@.labels);
                assert(fold(none).push(record.todo(self@.labels))[0] == record.todo(self@.labels));
                self@.lemma_place_of_record(r as int);
            }
        } else {
            proof {
                self@.lemma_no_record(id);
            }
        }
        rows
    }

    /// The rows of the join for every task, by descending task id.
    fn all_rows(&self) -> (rows: Vec<TodoWithLabelFromRow>)
        requires
            self@.valid(),
        ensures
            row_views(rows@) == join(self@.newest_first(), self@.labels),
    {
        let ghost newest = self@.newest_first();
        let ghost catalogue = self@.labels;
        let n = self.records.len();
        let mut rows: Vec<TodoWithLabelFromRow> = Vec::new();
        let mut i: usize = n;
        proof {
            assert(newest.take(0) =~= Seq::empty());
            assert(row_views(rows@) =~= join(newest.take(0), catalogue));
        }
        while i > 0
            invariant
                i <= n,
                n == self.records.len(),
                self@.valid(),
                newest == self@.newest_first(),
                catalogue == self@.labels,
                row_views(rows@) == join(newest.take(n - i), catalogue),
            decreases i,
        {
            i -= 1;
            self.push_rows(i, &mut rows);
            proof {
                let longer = newest.take(n - i);
                assert(longer.drop_last() =~= newest.take(n - i - 1));
                assert(longer.last() == self@.records[i as int]);
            }
        }
        proof {
            assert(newest.take(n as int) =~= newest);
        }
        rows
    }
}

impl TodoRepository for TodoRepositoryForMemory {
    open spec fn todos(&self) -> Seq<TodoView> {
        self@.todos()
    }

    open spec fn labels(&self) -> Seq<LabelView> {
        self@.labels
    }

    open spec fn valid(&self) -> bool {
        self@.valid()
    }

    proof fn lemma_ids_descend(&self) {
        self@.lemma_descending();
    }

    /// Fails exactly when no id is left or the labels cannot be attached.
    fn create(&mut self, payload: CreateTodo) -> (outcome: Result<TodoEntity, RepositoryError>)
        ensures
            todo_outcome(outcome) == old(self)@.create_outcome(payload@),
            final(self)@ == old(self)@.after_create(payload@),
    {
        let ghost before = self@;
        if self.last_id == i32::MAX {
            return Err(RepositoryError::Unexpected("no task id is left".to_owned()));
        }
        if !can_attach(&self.labels, &payload.labels) {
            return Err(RepositoryError::Unexpected("a label id is unknown or repeated".to_owned()));
        }
        let id: i32 = self.last_id + 1;
        let ghost stored = self.records@;
        let record = TodoRecord {
            id,
            text: payload.text,
            completed: false,
            label_ids: payload.labels,
        };
        self.records.push(record);
        self.last_id = id;
        proof {
            assert(record_views(stored.push(record)) =~= record_views(stored).push(record@));
            assert(self@ == before.after_create(payload@));
            before.lemma_create(payload@);
        }
        self.find(id)
    }

    /// Fails exactly when no task has the id.
    fn find(&self, id: i32) -> (outcome: Result<TodoEntity, RepositoryError>)
        ensures
            todo_outcome(outcome) == self@.find_outcome(id),
    {
        let rows = self.rows_of(id);
        find_in_rows(id, rows)
    }

    /// Never fails.
    fn all(&self) -> (outcome: Result<Vec<TodoEntity>, RepositoryError>)
        ensures
            outcome is Ok,
    {
        let rows = self.all_rows();
        proof {
            self@.lemma_descending();
            lemma_fold_join(self@.newest_first(), self@.labels);
        }
        Ok(fold_entities(rows))
    }

    /// Fails exactly when no task has the id, or the payload has labels that
    /// cannot be attached.
    fn update(&mut self, id: i32, payload: UpdateTodo) -> (outcome: Result<
        TodoEntity,
        RepositoryError,
    >)
        ensures
            todo_outcome(outcome) == old(self)@.update_outcome(id, payload@),
            final(self)@ == old(self)@.after_update(id, payload@),
    {
        let ghost before = self@;
        let r = self.position(id);
        if r == self.records.len() {
            proof {
                before.lemma_no_record(id);
            }
            return Err(RepositoryError::NotFound(id));
        }
        proof {
            before.lemma_place_of_record(r as int);
        }
        let attach = match &payload.labels {
            Some(ids) => can_attach(&self.labels, ids),
            None => true,
        };
        if !attach {
            return Err(RepositoryError::Unexpected("a label id is unknown or repeated".to_owned()));
        }
        let current = &self.records[r];
        let record = TodoRecord {
            id,
            text: match payload.text {
                Some(text) => text,
                None => current.text.clone(),
            },
            completed: match payload.completed {
                Some(completed) => completed,
                None => current.completed,
            },
            label_ids: match payload.labels {
                Some(ids) => ids,
                None => current.label_ids.clone(),
            },
        };
        let ghost stored = self.records@;
        self.records[r] = record;
        proof {
            assert(record_views(stored.update(r as int, record)) =~= record_views(stored).update(
                r as int,
                record@,
            ));
            assert(self@ == before.after_update(id, payload@));
            before.lemma_update(id, payload@);
        }
        self.find(id)
    }

    /// Fails exactly when no task has the id.
    fn delete(&mut self, id: i32) -> (outcome: Result<(), RepositoryError>)
        ensures
            unit_outcome(outcome) == old(self)@.delete_outcome(id),
            final(self)@ == old(self)@.after_delete(id),
    {
        let ghost before = self@;
        let r = self.position(id);
        if r == self.records.len() {
            proof {
                before.lemma_no_record(id);
            }
            return Err(RepositoryError::NotFound(id));
        }
        proof {
            before.lemma_place_of_record(r as int);
        }
        let ghost stored = self.records@;
        self.records.remove(r);
        proof {
            assert(record_views(stored.remove(r as int)) =~= record_views(stored).remove(r as int));
            assert(self@ == before.after_delete(id));
            before.lemma_delete(id);
        }
        Ok(())
    }
}

} // verus!
