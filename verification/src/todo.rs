use vstd::prelude::*;
use crate::error::{unit_outcome, ErrorView, RepositoryError};
use crate::label::{clone_labels, has_label_id, label_views, place_of_id, Label, LabelView};

verus! {

/// A task with the labels attached to it, as a read returns it.
#[derive(Debug, PartialEq, Eq)]
pub struct TodoEntity {
    pub id: i32,
    pub text: String,
    pub completed: bool,
    pub labels: Vec<Label>,
}

/// The mathematical value of a [`TodoEntity`].
pub struct TodoView {
    pub id: i32,
    pub text: Seq<char>,
    pub completed: bool,
    pub labels: Seq<LabelView>,
}

impl View for TodoEntity {
    type V = TodoView;

    open spec fn view(&self) -> TodoView {
        TodoView {
            id: self.id,
            text: self.text@,
            completed: self.completed,
            labels: label_views(self.labels@),
        }
    }
}

impl Clone for TodoEntity {
    fn clone(&self) -> (copy: Self)
        ensures
            copy@ == self@,
    {
        TodoEntity {
            id: self.id,
            text: self.text.clone(),
            completed: self.completed,
            labels: clone_labels(&self.labels),
        }
    }
}

impl TodoEntity {
    /// An open task without labels.
    pub fn new(id: i32, text: String) -> (todo: TodoEntity)
        ensures
            todo@ == (TodoView { id, text: text@, completed: false, labels: Seq::empty() }),
    {
        let todo = TodoEntity { id, text, completed: false, labels: Vec::new() };
        proof {
            assert(label_views(todo.labels@) =~= Seq::empty());
        }
        todo
    }
}

/// The values of a sequence of tasks, in order.
pub open spec fn todo_views(todos: Seq<TodoEntity>) -> Seq<TodoView> {
    todos.map_values(|todo: TodoEntity| todo@)
}

/// Whether a text can be the text of a task: it has at least one character
/// and at most a hundred.
pub open spec fn text_fits(text: Seq<char>) -> bool {
    1 <= text.len() <= 100
}

/// Whether `text` can be the text of a task.
pub fn is_valid_text(text: &str) -> (answer: bool)
    ensures
        answer == text_fits(text@),
{
    let length = text.unicode_len();
    1 <= length && length <= 100
}

/// What it takes to make a task: its text, and the ids of the labels to
/// attach to it.
#[derive(Debug, PartialEq, Eq)]
pub struct CreateTodo {
    pub text: String,
    pub labels: Vec<i32>,
}

/// The mathematical value of a [`CreateTodo`].
pub struct CreateView {
    pub text: Seq<char>,
    pub labels: Seq<i32>,
}

impl View for CreateTodo {
    type V = CreateView;

    open spec fn view(&self) -> CreateView {
        CreateView { text: self.text@, labels: self.labels@ }
    }
}

impl Clone for CreateTodo {
    fn clone(&self) -> (copy: Self)
        ensures
            copy@ == self@,
    {
        CreateTodo { text: self.text.clone(), labels: self.labels.clone() }
    }
}

impl CreateTodo {
    /// The payload for a task of this text with the labels of these ids.
    pub fn new(text: String, labels: Vec<i32>) -> (payload: CreateTodo)
        ensures
            payload@ == (CreateView { text: text@, labels: labels@ }),
    {
        CreateTodo { text, labels }
    }

    /// Whether the text can be the text of a task.
    pub fn is_valid(&self) -> (answer: bool)
        ensures
            answer == text_fits(self@.text),
    {
        is_valid_text(self.text.as_str())
    }
}

/// A change to a task. A field that is absent leaves that part of the task as
/// it is; label ids that are present replace all the labels of the task.
#[derive(Debug, PartialEq, Eq)]
pub struct UpdateTodo {
    pub text: Option<String>,
    pub completed: Option<bool>,
    pub labels: Option<Vec<i32>>,
}

/// The mathematical value of an [`UpdateTodo`].
pub struct UpdateView {
    pub text: Option<Seq<char>>,
    pub completed: Option<bool>,
    pub labels: Option<Seq<i32>>,
}

impl View for UpdateTodo {
    type V = UpdateView;

    open spec fn view(&self) -> UpdateView {
        UpdateView {
            text: match self.text {
                Some(text) => Some(text@),
                None => None,
            },
            completed: self.completed,
            labels: match self.labels {
                Some(labels) => Some(labels@),
                None => None,
            },
        }
    }
}

impl Clone for UpdateTodo {
    fn clone(&self) -> (copy: Self)
        ensures
            copy@ == self@,
    {
        UpdateTodo {
            text: match &self.text {
                Some(text) => Some(text.clone()),
                None => None,
            },
            completed: self.completed,
            labels: match &self.labels {
                Some(labels) => Some(labels.clone()),
                None => None,
            },
        }
    }
}

impl UpdateTodo {
    /// Whether the text, if there is one, can be the text of a task.
    pub fn is_valid(&self) -> (answer: bool)
        ensures
            answer == (self@.text is Some ==> text_fits(self@.text.unwrap())),
    {
        match &self.text {
            Some(text) => is_valid_text(text.as_str()),
            None => true,
        }
    }
}

impl UpdateView {
    /// The text of a task after this change, given the text before it.
    pub open spec fn text_over(self, current: Seq<char>) -> Seq<char> {
        match self.text {
            Some(text) => text,
            None => current,
        }
    }

    /// Whether a task is completed after this change, given whether it was.
    pub open spec fn completed_over(self, current: bool) -> bool {
        match self.completed {
            Some(completed) => completed,
            None => current,
        }
    }
}

/// One row of the join of tasks with their labels. A task without labels
/// comes as a single row whose label fields are empty.
#[derive(Debug, PartialEq, Eq)]
pub struct TodoWithLabelFromRow {
    pub id: i32,
    pub text: String,
    pub completed: bool,
    pub label_id: Option<i32>,
    pub label_name: Option<String>,
}

/// The mathematical value of a [`TodoWithLabelFromRow`].
pub struct RowView {
    pub id: i32,
    pub text: Seq<char>,
    pub completed: bool,
    pub label_id: Option<i32>,
    pub label_name: Option<Seq<char>>,
}

impl View for TodoWithLabelFromRow {
    type V = RowView;

    open spec fn view(&self) -> RowView {
        RowView {
            id: self.id,
            text: self.text@,
            completed: self.completed,
            label_id: self.label_id,
            label_name: match self.label_name {
                Some(name) => Some(name@),
                None => None,
            },
        }
    }
}

/// The values of a sequence of rows, in order.
pub open spec fn row_views(rows: Seq<TodoWithLabelFromRow>) -> Seq<RowView> {
    rows.map_values(|row: TodoWithLabelFromRow| row@)
}

impl RowView {
    /// The label that the row carries. Meaningful where both label fields are
    /// filled.
    pub open spec fn label(self) -> LabelView {
        LabelView { id: self.label_id.unwrap(), name: self.label_name.unwrap() }
    }

    /// The task that the row opens when its id is seen for the first time:
    /// with the row's label if the row has a label id, without labels if not.
    pub open spec fn opens(self) -> TodoView {
        TodoView {
            id: self.id,
            text: self.text,
            completed: self.completed,
            labels: if self.label_id is Some {
                seq![self.label()]
            } else {
                Seq::empty()
            },
        }
    }
}

/// Whether a task of this id stands in `todos`.
pub open spec fn has_id(todos: Seq<TodoView>, id: i32) -> bool {
    exists|k: int| 0 <= k < todos.len() && #[trigger] todos[k].id == id
}

/// The place of the first task of this id in `todos`, or the length of
/// `todos` if there is none.
pub open spec fn first_with_id(todos: Seq<TodoView>, id: i32) -> int
    decreases todos.len(),
{
    if todos.len() == 0 {
        0
    } else if todos[0].id == id {
        0
    } else {
        1 + first_with_id(todos.drop_first(), id)
    }
}

/// `todo` with one more label at the end.
pub open spec fn with_label(todo: TodoView, label: LabelView) -> TodoView {
    TodoView { labels: todo.labels.push(label), ..todo }
}

/// One step of the fold. A row whose task is in `todos` already adds its
/// label to the first task of that id; any other row opens a task at the end.
pub open spec fn absorb(todos: Seq<TodoView>, row: RowView) -> Seq<TodoView> {
    let k = first_with_id(todos, row.id);
    if k < todos.len() {
        todos.update(k, with_label(todos[k], row.label()))
    } else {
        todos.push(row.opens())
    }
}

/// The fold of `rows`: the rows absorbed one after the other, from the first
/// to the last, starting with no task.
pub open spec fn fold(rows: Seq<RowView>) -> Seq<TodoView>
    decreases rows.len(),
{
    if rows.len() == 0 {
        Seq::empty()
    } else {
        absorb(fold(rows.drop_last()), rows.last())
    }
}

/// Whether the row at `i` can be absorbed after the rows before it: a row that
/// continues a task has both label fields, and a row that opens one has a
/// label name if it has a label id.
pub open spec fn row_fits(rows: Seq<RowView>, i: int) -> bool {
    let row = rows[i];
    if exists|j: int| 0 <= j < i && #[trigger] rows[j].id == row.id {
        row.label_id is Some && row.label_name is Some
    } else {
        row.label_id is Some ==> row.label_name is Some
    }
}

/// Whether `rows` can be folded: every row fits after those before it. The
/// rows of a left outer join of tasks with their labels can.
pub open spec fn foldable(rows: Seq<RowView>) -> bool {
    forall|i: int| 0 <= i < rows.len() ==> row_fits(rows, i)
}

/// The first place of an id is within `todos` exactly when a task of that id
/// stands there, and then the task at that place has the id and none before
/// it has.
pub proof fn lemma_first_with_id(todos: Seq<TodoView>, id: i32)
    ensures
        0 <= first_with_id(todos, id) <= todos.len(),
        first_with_id(todos, id) < todos.len() <==> has_id(todos, id),
        first_with_id(todos, id) < todos.len() ==> todos[first_with_id(todos, id)].id == id,
        forall|k: int| 0 <= k < first_with_id(todos, id) ==> (#[trigger] todos[k]).id != id,
    decreases todos.len(),
{
    if todos.len() == 0 {
    } else if todos[0].id == id {
    } else {
        let rest = todos.drop_first();
        lemma_first_with_id(rest, id);
        let k = first_with_id(rest, id);
        if has_id(todos, id) {
            let w = choose|w: int| 0 <= w < todos.len() && #[trigger] todos[w].id == id;
            assert(rest[w - 1].id == id);
        }
        if k < rest.len() {
            assert(todos[k + 1].id == id);
        }
        assert forall|j: int| 0 <= j < 1 + k implies (#[trigger] todos[j]).id != id by {
            if j > 0 {
                assert(rest[j - 1].id != id);
            }
        }
    }
}

/// The place of the first task of this id in `todos`, or the length of
/// `todos` if there is none.
fn position_of(todos: &Vec<TodoEntity>, id: i32) -> (place: usize)
    ensures
        place == first_with_id(todo_views(todos@), id),
        place <= todos.len(),
{
    let ghost views = todo_views(todos@);
    let mut k: usize = 0;
    while k < todos.len()
        invariant
            k <= todos.len(),
            views == todo_views(todos@),
            forall|j: int| 0 <= j < k ==> (#[trigger] views[j]).id != id,
        decreases todos.len() - k,
    {
        if todos[k].id == id {
            proof {
                lemma_first_with_id(views, id);
                assert(views[k as int].id == id);
            }
            return k;
        }
        k += 1;
    }
    proof {
        lemma_first_with_id(views, id);
    }
    k
}

/// The tasks of a fold of `rows` are those whose id a row has.
pub proof fn lemma_fold_ids(rows: Seq<RowView>, id: i32)
    ensures
        has_id(fold(rows), id) <==> exists|j: int| 0 <= j < rows.len() && #[trigger] rows[j].id == id,
    decreases rows.len(),
{
    if rows.len() > 0 {
        let before = rows.drop_last();
        let row = rows.last();
        let todos = fold(before);
        let after = fold(rows);
        lemma_fold_ids(before, id);
        lemma_first_with_id(todos, row.id);
        let k = first_with_id(todos, row.id);
        if has_id(after, id) {
            let w = choose|w: int| 0 <= w < after.len() && #[trigger] after[w].id == id;
            if w < todos.len() {
                assert(todos[w].id == id);
                let j = choose|j: int| 0 <= j < before.len() && #[trigger] before[j].id == id;
                assert(rows[j].id == id);
            } else {
                assert(rows[rows.len() - 1].id == id);
            }
        }
        if exists|j: int| 0 <= j < rows.len() && #[trigger] rows[j].id == id {
            let j = choose|j: int| 0 <= j < rows.len() && #[trigger] rows[j].id == id;
            if j < before.len() {
                assert(before[j].id == id);
                let w = choose|w: int| 0 <= w < todos.len() && #[trigger] todos[w].id == id;
                assert(after[w].id == id);
            } else if k < todos.len() {
                assert(after[k].id == id);
            } else {
                assert(after[todos.len() as int].id == id);
            }
        }
    }
}

/// Folds the rows of a join into tasks with their labels: one task for each
/// id, in the order in which the ids first appear, each with the labels of
/// its rows in the order of the rows.
pub fn fold_entities(rows: Vec<TodoWithLabelFromRow>) -> (todos: Vec<TodoEntity>)
    requires
        foldable(row_views(rows@)),
    ensures
        todo_views(todos@) == fold(row_views(rows@)),
{
    let ghost all = row_views(rows@);
    let mut accum: Vec<TodoEntity> = Vec::new();
    let mut i: usize = 0;
    proof {
        assert(all.take(0) =~= Seq::empty());
        assert(todo_views(accum@) =~= fold(all.take(0)));
    }
    while i < rows.len()
        invariant
            i <= rows.len(),
            all == row_views(rows@),
            foldable(all),
            todo_views(accum@) == fold(all.take(i as int)),
        decreases rows.len() - i,
    {
        let row = &rows[i];
        let ghost before = accum@;
        let ghost seen = all.take(i as int);
        let k = position_of(&accum, row.id);
        proof {
            assert(all[i as int] == row@);
            assert(all.take(i + 1).drop_last() =~= seen);
            assert(all.take(i + 1).last() == row@);
            assert(row_fits(all, i as int));
            lemma_first_with_id(todo_views(before), row.id);
            lemma_fold_ids(seen, row.id);
        }
        if k < accum.len() {
            proof {
                let j = choose|j: int| 0 <= j < seen.len() && #[trigger] seen[j].id == row.id;
                assert(all[j].id == row.id);
            }
            let label = Label {
                id: row.label_id.unwrap(),
                name: row.label_name.as_ref().unwrap().clone(),
            };
            accum[k].labels.push(label);
            proof {
                assert(label@ == row@.label());
                assert(label_views(before[k as int].labels@.push(label)) =~= label_views(
                    before[k as int].labels@,
                ).push(label@));
                assert(todo_views(accum@) =~= absorb(todo_views(before), row@));
            }
        } else {
            proof {
                if exists|j: int| 0 <= j < i && #[trigger] all[j].id == row.id {
                    let j = choose|j: int| 0 <= j < i && #[trigger] all[j].id == row.id;
                    assert(seen[j].id == row.id);
                }
            }
            let mut labels: Vec<Label> = Vec::new();
            if row.label_id.is_some() {
                labels.push(
                    Label {
                        id: row.label_id.unwrap(),
                        name: row.label_name.as_ref().unwrap().clone(),
                    },
                );
            }
            let todo = TodoEntity {
                id: row.id,
                text: row.text.clone(),
                completed: row.completed,
                labels,
            };
            accum.push(todo);
            proof {
                assert(todo@.labels =~= row@.opens().labels);
                assert(todo_views(accum@) =~= absorb(todo_views(before), row@));
            }
        }
        i += 1;
    }
    proof {
        assert(all.take(i as int) =~= all);
    }
    accum
}

/// Whether `rows` can be folded.
pub fn can_fold(rows: &Vec<TodoWithLabelFromRow>) -> (answer: bool)
    ensures
        answer == foldable(row_views(rows@)),
{
    let ghost all = row_views(rows@);
    let mut i: usize = 0;
    while i < rows.len()
        invariant
            i <= rows.len(),
            all == row_views(rows@),
            forall|k: int| 0 <= k < i ==> row_fits(all, k),
        decreases rows.len() - i,
    {
        let row = &rows[i];
        let mut seen = false;
        let mut j: usize = 0;
        while j < i
            invariant
                j <= i < rows.len(),
                all == row_views(rows@),
                row@ == all[i as int],
                seen == exists|m: int| 0 <= m < j && #[trigger] all[m].id == row.id,
            decreases i - j,
        {
            if rows[j].id == row.id {
                assert(all[j as int].id == row.id);
                seen = true;
            }
            j += 1;
        }
        let fits = if seen {
            row.label_id.is_some() && row.label_name.is_some()
        } else {
            row.label_id.is_none() || row.label_name.is_some()
        };
        if !fits {
            assert(!row_fits(all, i as int));
            return false;
        }
        i += 1;
    }
    true
}

/// What `find` makes of the fold of the rows that the store gave for an id:
/// the first task, or `NotFound` of the id where there is none.
pub open spec fn first_or_missing(todos: Seq<TodoView>, id: i32) -> Result<TodoView, ErrorView> {
    if todos.len() == 0 {
        Err(ErrorView::NotFound(id))
    } else {
        Ok(todos[0])
    }
}

/// The task that the rows of a read for `id` hold: they are folded, and the
/// first task of the fold is the answer. Rows of a task without labels give
/// that task; only no row at all gives `NotFound`.
pub fn find_in_rows(id: i32, rows: Vec<TodoWithLabelFromRow>) -> (outcome: Result<
    TodoEntity,
    RepositoryError,
>)
    requires
        foldable(row_views(rows@)),
    ensures
        todo_outcome(outcome) == first_or_missing(fold(row_views(rows@)), id),
{
    let mut todos = fold_entities(rows);
    if todos.len() == 0 {
        Err(RepositoryError::NotFound(id))
    } else {
        Ok(todos.remove(0))
    }
}

/// Whether the ids of `todos` fall strictly from each task to the next.
pub open spec fn descending_ids(todos: Seq<TodoView>) -> bool {
    forall|i: int, j: int| 0 <= i < j < todos.len() ==> todos[i].id > todos[j].id
}

/// Whether labels of these ids can be attached to one task: `catalogue` has
/// a label for each id, and no id comes twice.
pub open spec fn attachable(catalogue: Seq<LabelView>, ids: Seq<i32>) -> bool {
    &&& ids.no_duplicates()
    &&& forall|j: int| 0 <= j < ids.len() ==> has_label_id(catalogue, #[trigger] ids[j])
}

/// The labels of these ids in `catalogue`, one for each id, in the order of
/// the ids.
pub open spec fn attached(catalogue: Seq<LabelView>, ids: Seq<i32>) -> Seq<LabelView> {
    Seq::new(ids.len(), |j: int| catalogue[place_of_id(catalogue, ids[j])])
}

/// The task that `create` makes under `id`: open, with the payload's text and
/// the labels of the payload's ids.
pub open spec fn created(catalogue: Seq<LabelView>, id: i32, payload: CreateView) -> TodoView {
    TodoView {
        id,
        text: payload.text,
        completed: false,
        labels: attached(catalogue, payload.labels),
    }
}

/// `todo` after a change: each field that the payload has replaces the
/// task's, and label ids in the payload replace all its labels.
pub open spec fn updated(catalogue: Seq<LabelView>, todo: TodoView, payload: UpdateView) -> TodoView {
    TodoView {
        id: todo.id,
        text: payload.text_over(todo.text),
        completed: payload.completed_over(todo.completed),
        labels: match payload.labels {
            Some(ids) => attached(catalogue, ids),
            None => todo.labels,
        },
    }
}

/// Whether `after` is `before` with one task made from the payload: the new
/// task is as [`created`] says, under an id above every id in `before`, and
/// it is the only change.
pub open spec fn created_in(
    before: Seq<TodoView>,
    catalogue: Seq<LabelView>,
    payload: CreateView,
    after: Seq<TodoView>,
) -> bool {
    &&& attachable(catalogue, payload.labels)
    &&& after.len() == before.len() + 1
    &&& after[0] == created(catalogue, after[0].id, payload)
    &&& forall|k: int| 0 <= k < before.len() ==> (#[trigger] before[k]).id < after[0].id
    &&& after == seq![after[0]] + before
}

/// What every task store promises of `create`. On success the task was made
/// as [`created_in`] says and is the outcome. A failure is `Unexpected`. The
/// write is all or nothing: after a failure the store is as it was, or, where
/// the task was made and only reading it back failed, the whole task is
/// there with all its labels. No task without its labels is ever left
/// behind.
pub open spec fn create_todo_post(
    before: Seq<TodoView>,
    catalogue: Seq<LabelView>,
    payload: CreateView,
    outcome: Result<TodoView, ErrorView>,
    after: Seq<TodoView>,
) -> bool {
    match outcome {
        Ok(todo) => created_in(before, catalogue, payload, after) && todo == after[0],
        Err(ErrorView::Unexpected(_)) => {
            after == before || created_in(before, catalogue, payload, after)
        },
        Err(_) => false,
    }
}

/// What every task store promises of `find`: the task of that id, with its
/// labels, whether it has any or not; `NotFound` of that id only where no
/// task has it.
pub open spec fn find_todo_post(
    todos: Seq<TodoView>,
    id: i32,
    outcome: Result<TodoView, ErrorView>,
) -> bool {
    match outcome {
        Ok(todo) => has_id(todos, id) && todo == todos[first_with_id(todos, id)],
        Err(ErrorView::NotFound(missing)) => missing == id && !has_id(todos, id),
        Err(ErrorView::Unexpected(_)) => true,
        Err(ErrorView::Duplicate(_)) => false,
    }
}

/// Whether `after` is `before` with the task of that id changed as the
/// payload says: the task is as [`updated`] says, text, state and labels
/// changed together, and it is the only change.
pub open spec fn updated_in(
    before: Seq<TodoView>,
    catalogue: Seq<LabelView>,
    id: i32,
    payload: UpdateView,
    after: Seq<TodoView>,
) -> bool {
    let k = first_with_id(before, id);
    &&& has_id(before, id)
    &&& payload.labels is Some ==> attachable(catalogue, payload.labels.unwrap())
    &&& after == before.update(k, updated(catalogue, before[k], payload))
}

/// What every task store promises of `update`. On success the task was
/// changed as [`updated_in`] says and is the outcome. `NotFound` of that id
/// comes only where no task has it, and changes nothing. The write is all or
/// nothing: after an `Unexpected` failure the store is as it was, or, where
/// the change was made and only reading it back failed, the whole change is
/// there. A task with its new text and its old labels is never seen.
pub open spec fn update_todo_post(
    before: Seq<TodoView>,
    catalogue: Seq<LabelView>,
    id: i32,
    payload: UpdateView,
    outcome: Result<TodoView, ErrorView>,
    after: Seq<TodoView>,
) -> bool {
    match outcome {
        Ok(todo) => {
            &&& updated_in(before, catalogue, id, payload, after)
            &&& todo == after[first_with_id(before, id)]
        },
        Err(ErrorView::NotFound(missing)) => {
            missing == id && !has_id(before, id) && after == before
        },
        Err(ErrorView::Unexpected(_)) => {
            after == before || updated_in(before, catalogue, id, payload, after)
        },
        Err(ErrorView::Duplicate(_)) => false,
    }
}

/// What every task store promises of `delete`: the task of that id leaves,
/// with all that attached labels to it, and the others stay as they are and
/// in their order. `NotFound` of that id comes only where no task has it.
/// Any failure changes nothing.
pub open spec fn delete_todo_post(
    before: Seq<TodoView>,
    id: i32,
    outcome: Result<(), ErrorView>,
    after: Seq<TodoView>,
) -> bool {
    match outcome {
        Ok(_) => has_id(before, id) && after == before.remove(first_with_id(before, id)),
        Err(ErrorView::NotFound(missing)) => {
            missing == id && !has_id(before, id) && after == before
        },
        Err(ErrorView::Unexpected(_)) => after == before,
        Err(ErrorView::Duplicate(_)) => false,
    }
}

/// The value of the outcome of an operation that gives a task.
pub open spec fn todo_outcome(outcome: Result<TodoEntity, RepositoryError>) -> Result<
    TodoView,
    ErrorView,
> {
    match outcome {
        Ok(todo) => Ok(todo@),
        Err(error) => Err(error@),
    }
}

/// A store of tasks. A task carries labels by their ids; the labels
/// themselves belong to a label store.
pub trait TodoRepository: Sized {
    /// Every task in the store with its labels, by descending id.
    spec fn todos(&self) -> Seq<TodoView>;

    /// The labels that the store can attach to a task.
    spec fn labels(&self) -> Seq<LabelView>;

    /// What the store keeps true of itself between operations.
    spec fn valid(&self) -> bool;

    /// In a valid store the ids descend, so no two tasks share one.
    proof fn lemma_ids_descend(&self)
        requires
            self.valid(),
        ensures
            descending_ids(self.todos()),
    ;

    /// Makes an open task with the payload's text and labels.
    fn create(&mut self, payload: CreateTodo) -> (outcome: Result<TodoEntity, RepositoryError>)
        requires
            old(self).valid(),
        ensures
            final(self).valid(),
            final(self).labels() == old(self).labels(),
            create_todo_post(
                old(self).todos(),
                old(self).labels(),
                payload@,
                todo_outcome(outcome),
                final(self).todos(),
            ),
    ;

    /// The task of this id with its labels.
    fn find(&self, id: i32) -> (outcome: Result<TodoEntity, RepositoryError>)
        requires
            self.valid(),
        ensures
            find_todo_post(self.todos(), id, todo_outcome(outcome)),
    ;

    /// Every task with its labels, by descending id.
    fn all(&self) -> (outcome: Result<Vec<TodoEntity>, RepositoryError>)
        requires
            self.valid(),
        ensures
            match outcome {
                Ok(todos) => todo_views(todos@) == self.todos(),
                Err(error) => error@ is Unexpected,
            },
    ;

    /// Changes the task of this id as the payload says.
    fn update(&mut self, id: i32, payload: UpdateTodo) -> (outcome: Result<
        TodoEntity,
        RepositoryError,
    >)
        requires
            old(self).valid(),
        ensures
            final(self).valid(),
            final(self).labels() == old(self).labels(),
            update_todo_post(
                old(self).todos(),
                old(self).labels(),
                id,
                payload@,
                todo_outcome(outcome),
                final(self).todos(),
            ),
    ;

    /// Removes the task of this id and what attached labels to it.
    fn delete(&mut self, id: i32) -> (outcome: Result<(), RepositoryError>)
        requires
            old(self).valid(),
        ensures
            final(self).valid(),
            final(self).labels() == old(self).labels(),
            delete_todo_post(old(self).todos(), id, unit_outcome(outcome), final(self).todos()),
    ;
}

} // verus!
