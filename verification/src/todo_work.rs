use vstd::prelude::*;
use crate::error::{ErrorView, RepositoryError};
use crate::statement::{rows_do_not_fit, Answer, AnswerView, Statement, StatementView};
use crate::todo::{
    can_fold, find_in_rows, first_or_missing, fold, fold_entities, foldable, todo_views,
    CreateTodo, CreateView, TodoEntity, TodoView, UpdateTodo, UpdateView,
};

verus! {

/// What a unit of work does next: it asks the engine one more statement and
/// goes on from there, or it is finished with an outcome.
pub enum Step<W, T> {
    Ask(W, Statement),
    Finish(Result<T, RepositoryError>),
}

/// The mathematical value of a [`Step`].
pub enum StepView<W, T> {
    Ask(W, StatementView),
    Finish(Result<T, ErrorView>),
}

impl<W: View, T: View> View for Step<W, T> {
    type V = StepView<W::V, T::V>;

    open spec fn view(&self) -> StepView<W::V, T::V> {
        match self {
            Step::Ask(work, statement) => StepView::Ask(work@, statement@),
            Step::Finish(Ok(value)) => StepView::Finish(Ok(value@)),
            Step::Finish(Err(error)) => StepView::Finish(Err(error@)),
        }
    }
}

/// What a read of the task `id` makes of the engine's answer: the rows are
/// folded and the first task is the outcome; no row is `NotFound(id)`; rows
/// that cannot be folded, and any other answer, are an error.
pub open spec fn read_outcome(id: i32, answer: AnswerView) -> Result<TodoView, ErrorView> {
    match answer {
        AnswerView::Rows { rows } => if foldable(rows) {
            first_or_missing(fold(rows), id)
        } else {
            Err(ErrorView::Unexpected(rows_do_not_fit()))
        },
        other => Err(other.error(id)),
    }
}

/// The outcome of `find` on a relational store, from the engine's answer to
/// `SelectTodo` of that id.
pub fn read_todo(id: i32, answer: Answer) -> (outcome: Result<TodoEntity, RepositoryError>)
    ensures
        crate::todo::todo_outcome(outcome) == read_outcome(id, answer@),
{
    match answer {
        Answer::Rows { rows } => {
            if can_fold(&rows) {
                find_in_rows(id, rows)
            } else {
                Err(RepositoryError::Unexpected("the rows of a task do not fit together".to_owned()))
            }
        },
        other => Err(other.into_error(id)),
    }
}

/// What a read of every task makes of the engine's answer: the fold of the
/// rows; rows that cannot be folded, and any other answer, are an error.
pub open spec fn read_all_outcome(answer: AnswerView) -> Result<Seq<TodoView>, ErrorView> {
    match answer {
        AnswerView::Rows { rows } => if foldable(rows) {
            Ok(fold(rows))
        } else {
            Err(ErrorView::Unexpected(rows_do_not_fit()))
        },
        other => Err(other.plain_error()),
    }
}

/// The outcome of `all` on a relational store, from the engine's answer to
/// `SelectTodos`.
pub fn read_todos(answer: Answer) -> (outcome: Result<Vec<TodoEntity>, RepositoryError>)
    ensures
        match outcome {
            Ok(todos) => Ok::<Seq<TodoView>, ErrorView>(todo_views(todos@)),
            Err(error) => Err(error@),
        } == read_all_outcome(answer@),
{
    match answer {
        Answer::Rows { rows } => {
            if can_fold(&rows) {
                Ok(fold_entities(rows))
            } else {
                Err(RepositoryError::Unexpected("the rows of a task do not fit together".to_owned()))
            }
        },
        other => Err(other.into_plain_error()),
    }
}

/// The unit of work that makes a task on a relational store: begin, insert
/// the task, attach its labels, commit, and read the task back. Each value
/// names the statement that was asked last.
pub enum CreateTodoWork {
    Beginning { payload: CreateTodo },
    Inserting { label_ids: Vec<i32> },
    Attaching { id: i32 },
    Committing { id: i32 },
    Reading { id: i32 },
    Undoing { error: RepositoryError },
}

/// The mathematical value of a [`CreateTodoWork`].
pub enum CreateWorkView {
    Beginning { payload: CreateView },
    Inserting { label_ids: Seq<i32> },
    Attaching { id: i32 },
    Committing { id: i32 },
    Reading { id: i32 },
    Undoing { error: ErrorView },
}

impl View for CreateTodoWork {
    type V = CreateWorkView;

    open spec fn view(&self) -> CreateWorkView {
        match self {
            CreateTodoWork::Beginning { payload } => CreateWorkView::Beginning {
                payload: payload@,
            },
            CreateTodoWork::Inserting { label_ids } => CreateWorkView::Inserting {
                label_ids: label_ids@,
            },
            CreateTodoWork::Attaching { id } => CreateWorkView::Attaching { id: *id },
            CreateTodoWork::Committing { id } => CreateWorkView::Committing { id: *id },
            CreateTodoWork::Reading { id } => CreateWorkView::Reading { id: *id },
            CreateTodoWork::Undoing { error } => CreateWorkView::Undoing { error: error@ },
        }
    }
}

impl CreateWorkView {
    /// Whether the unit of work is open: begun, and neither committed nor
    /// rolled back yet.
    pub open spec fn open_unit(self) -> bool {
        self is Inserting || self is Attaching
    }

    /// The step that follows the engine's answer to the statement asked last.
    /// Inside the open unit any answer but the awaited one leads to
    /// `Rollback`, and the error of that answer is the outcome.
    pub open spec fn next(self, answer: AnswerView) -> StepView<CreateWorkView, TodoView> {
        match self {
            CreateWorkView::Beginning { payload } => match answer {
                AnswerView::Done { .. } => StepView::Ask(
                    CreateWorkView::Inserting { label_ids: payload.labels },
                    StatementView::InsertTodo { text: payload.text },
                ),
                other => StepView::Finish(Err(other.plain_error())),
            },
            CreateWorkView::Inserting { label_ids } => match answer {
                AnswerView::Inserted { id } => StepView::Ask(
                    CreateWorkView::Attaching { id },
                    StatementView::InsertTodoLabels { todo_id: id, label_ids },
                ),
                other => StepView::Ask(
                    CreateWorkView::Undoing { error: other.plain_error() },
                    StatementView::Rollback,
                ),
            },
            CreateWorkView::Attaching { id } => match answer {
                AnswerView::Done { .. } => StepView::Ask(
                    CreateWorkView::Committing { id },
                    StatementView::Commit,
                ),
                other => StepView::Ask(
                    CreateWorkView::Undoing { error: other.plain_error() },
                    StatementView::Rollback,
                ),
            },
            CreateWorkView::Committing { id } => match answer {
                AnswerView::Done { .. } => StepView::Ask(
                    CreateWorkView::Reading { id },
                    StatementView::SelectTodo { id },
                ),
                other => StepView::Finish(Err(other.plain_error())),
            },
            CreateWorkView::Reading { id } => StepView::Finish(read_outcome(id, answer)),
            CreateWorkView::Undoing { error } => StepView::Finish(Err(error)),
        }
    }
}

impl CreateTodoWork {
    /// The unit of work for this payload, and its first statement: `Begin`.
    pub fn start(payload: CreateTodo) -> (first: (CreateTodoWork, Statement))
        ensures
            first.0@ == (CreateWorkView::Beginning { payload: payload@ }),
            first.1@ == StatementView::Begin,
    {
        (CreateTodoWork::Beginning { payload }, Statement::Begin)
    }

    /// Takes the engine's answer to the statement asked last and says what
    /// comes next.
    pub fn step(self, answer: Answer) -> (step: Step<CreateTodoWork, TodoEntity>)
        ensures
            step@ == self@.next(answer@),
    {
        match self {
            CreateTodoWork::Beginning { payload } => match answer {
                Answer::Done { .. } => Step::Ask(
                    CreateTodoWork::Inserting { label_ids: payload.labels },
                    Statement::InsertTodo { text: payload.text },
                ),
                other => Step::Finish(Err(other.into_plain_error())),
            },
            CreateTodoWork::Inserting { label_ids } => match answer {
                Answer::Inserted { id } => Step::Ask(
                    CreateTodoWork::Attaching { id },
                    Statement::InsertTodoLabels { todo_id: id, label_ids },
                ),
                other => Step::Ask(
                    CreateTodoWork::Undoing { error: other.into_plain_error() },
                    Statement::Rollback,
                ),
            },
            CreateTodoWork::Attaching { id } => match answer {
                Answer::Done { .. } => Step::Ask(
                    CreateTodoWork::Committing { id },
                    Statement::Commit,
                ),
                other => Step::Ask(
                    CreateTodoWork::Undoing { error: other.into_plain_error() },
                    Statement::Rollback,
                ),
            },
            CreateTodoWork::Committing { id } => match answer {
                Answer::Done { .. } => Step::Ask(
                    CreateTodoWork::Reading { id },
                    Statement::SelectTodo { id },
                ),
                other => Step::Finish(Err(other.into_plain_error())),
            },
            CreateTodoWork::Reading { id } => Step::Finish(read_todo(id, answer)),
            CreateTodoWork::Undoing { error } => Step::Finish(Err(error)),
        }
    }
}

/// The unit of work that changes a task on a relational store: begin, read
/// the task, write its text and state, replace its labels if the payload has
/// label ids, commit, and read the task back. Each value names the statement
/// that was asked last.
pub enum UpdateTodoWork {
    Beginning { id: i32, payload: UpdateTodo },
    Fetching { id: i32, payload: UpdateTodo },
    Writing { id: i32, new_labels: Option<Vec<i32>> },
    Detaching { id: i32, label_ids: Vec<i32> },
    Attaching { id: i32 },
    Committing { id: i32 },
    Reading { id: i32 },
    Undoing { error: RepositoryError },
}

/// The mathematical value of an [`UpdateTodoWork`].
pub enum UpdateWorkView {
    Beginning { id: i32, payload: UpdateView },
    Fetching { id: i32, payload: UpdateView },
    Writing { id: i32, new_labels: Option<Seq<i32>> },
    Detaching { id: i32, label_ids: Seq<i32> },
    Attaching { id: i32 },
    Committing { id: i32 },
    Reading { id: i32 },
    Undoing { error: ErrorView },
}

impl View for UpdateTodoWork {
    type V = UpdateWorkView;

    open spec fn view(&self) -> UpdateWorkView {
        match self {
            UpdateTodoWork::Beginning { id, payload } => UpdateWorkView::Beginning {
                id: *id,
                payload: payload@,
            },
            UpdateTodoWork::Fetching { id, payload } => UpdateWorkView::Fetching {
                id: *id,
                payload: payload@,
            },
            UpdateTodoWork::Writing { id, new_labels } => UpdateWorkView::Writing {
                id: *id,
                new_labels: match new_labels {
                    Some(ids) => Some(ids@),
                    None => None,
                },
            },
            UpdateTodoWork::Detaching { id, label_ids } => UpdateWorkView::Detaching {
                id: *id,
                label_ids: label_ids@,
            },
            UpdateTodoWork::Attaching { id } => UpdateWorkView::Attaching { id: *id },
            UpdateTodoWork::Committing { id } => UpdateWorkView::Committing { id: *id },
            UpdateTodoWork::Reading { id } => UpdateWorkView::Reading { id: *id },
            UpdateTodoWork::Undoing { error } => UpdateWorkView::Undoing { error: error@ },
        }
    }
}

impl UpdateWorkView {
    /// Whether the unit of work is open: begun, and neither committed nor
    /// rolled back yet.
    pub open spec fn open_unit(self) -> bool {
        self is Fetching || self is Writing || self is Detaching || self is Attaching
    }

    /// The step that follows the engine's answer to the statement asked last.
    /// The task is read inside the unit; where it is not there, or a write
    /// touches no row, the unit is rolled back and the outcome is
    /// `NotFound`. Inside the open unit any answer but the awaited one leads
    /// to `Rollback`, and the error of that answer is the outcome.
    pub open spec fn next(self, answer: AnswerView) -> StepView<UpdateWorkView, TodoView> {
        match self {
            UpdateWorkView::Beginning { id, payload } => match answer {
                AnswerView::Done { .. } => StepView::Ask(
                    UpdateWorkView::Fetching { id, payload },
                    StatementView::SelectTodo { id },
                ),
                other => StepView::Finish(Err(other.error(id))),
            },
            UpdateWorkView::Fetching { id, payload } => match read_outcome(id, answer) {
                Ok(current) => StepView::Ask(
                    UpdateWorkView::Writing { id, new_labels: payload.labels },
                    StatementView::UpdateTodo {
                        id,
                        text: payload.text_over(current.text),
                        completed: payload.completed_over(current.completed),
                    },
                ),
                Err(error) => StepView::Ask(
                    UpdateWorkView::Undoing { error },
                    StatementView::Rollback,
                ),
            },
            UpdateWorkView::Writing { id, new_labels } => match answer {
                AnswerView::Done { affected } => if affected == 0 {
                    StepView::Ask(
                        UpdateWorkView::Undoing { error: ErrorView::NotFound(id) },
                        StatementView::Rollback,
                    )
                } else {
                    match new_labels {
                        Some(ids) => StepView::Ask(
                            UpdateWorkView::Detaching { id, label_ids: ids },
                            StatementView::DeleteTodoLabels { todo_id: id },
                        ),
                        None => StepView::Ask(
                            UpdateWorkView::Committing { id },
                            StatementView::Commit,
                        ),
                    }
                },
                other => StepView::Ask(
                    UpdateWorkView::Undoing { error: other.error(id) },
                    StatementView::Rollback,
                ),
            },
            UpdateWorkView::Detaching { id, label_ids } => match answer {
                AnswerView::Done { .. } => StepView::Ask(
                    UpdateWorkView::Attaching { id },
                    StatementView::InsertTodoLabels { todo_id: id, label_ids },
                ),
                other => StepView::Ask(
                    UpdateWorkView::Undoing { error: other.error(id) },
                    StatementView::Rollback,
                ),
            },
            UpdateWorkView::Attaching { id } => match answer {
                AnswerView::Done { .. } => StepView::Ask(
                    UpdateWorkView::Committing { id },
                    StatementView::Commit,
                ),
                other => StepView::Ask(
                    UpdateWorkView::Undoing { error: other.error(id) },
                    StatementView::Rollback,
                ),
            },
            UpdateWorkView::Committing { id } => match answer {
                AnswerView::Done { .. } => StepView::Ask(
                    UpdateWorkView::Reading { id },
                    StatementView::SelectTodo { id },
                ),
                other => StepView::Finish(Err(other.error(id))),
            },
            UpdateWorkView::Reading { id } => StepView::Finish(read_outcome(id, answer)),
            UpdateWorkView::Undoing { error } => StepView::Finish(Err(error)),
        }
    }
}

impl UpdateTodoWork {
    /// The unit of work for this id and payload, and its first statement:
    /// `Begin`.
    pub fn start(id: i32, payload: UpdateTodo) -> (first: (UpdateTodoWork, Statement))
        ensures
            first.0@ == (UpdateWorkView::Beginning { id, payload: payload@ }),
            first.1@ == StatementView::Begin,
    {
        (UpdateTodoWork::Beginning { id, payload }, Statement::Begin)
    }

    /// Takes the engine's answer to the statement asked last and says what
    /// comes next.
    pub fn step(self, answer: Answer) -> (step: Step<UpdateTodoWork, TodoEntity>)
        ensures
            step@ == self@.next(answer@),
    {
        match self {
            UpdateTodoWork::Beginning { id, payload } => match answer {
                Answer::Done { .. } => Step::Ask(
                    UpdateTodoWork::Fetching { id, payload },
                    Statement::SelectTodo { id },
                ),
                other => Step::Finish(Err(other.into_error(id))),
            },
            UpdateTodoWork::Fetching { id, payload } => match read_todo(id, answer) {
                Ok(current) => {
                    let text = match payload.text {
                        Some(text) => text,
                        None => current.text,
                    };
                    let completed = match payload.completed {
                        Some(completed) => completed,
                        None => current.completed,
                    };
                    Step::Ask(
                        UpdateTodoWork::Writing { id, new_labels: payload.labels },
                        Statement::UpdateTodo { id, text, completed },
                    )
                },
                Err(error) => Step::Ask(UpdateTodoWork::Undoing { error }, Statement::Rollback),
            },
            UpdateTodoWork::Writing { id, new_labels } => match answer {
                Answer::Done { affected } => {
                    if affected == 0 {
                        Step::Ask(
                            UpdateTodoWork::Undoing { error: RepositoryError::NotFound(id) },
                            Statement::Rollback,
                        )
                    } else {
                        match new_labels {
                            Some(ids) => Step::Ask(
                                UpdateTodoWork::Detaching { id, label_ids: ids },
                                Statement::DeleteTodoLabels { todo_id: id },
                            ),
                            None => Step::Ask(
                                UpdateTodoWork::Committing { id },
                                Statement::Commit,
                            ),
                        }
                    }
                },
                other => Step::Ask(
                    UpdateTodoWork::Undoing { error: other.into_error(id) },
                    Statement::Rollback,
                ),
            },
            UpdateTodoWork::Detaching { id, label_ids } => match answer {
                Answer::Done { .. } => Step::Ask(
                    UpdateTodoWork::Attaching { id },
                    Statement::InsertTodoLabels { todo_id: id, label_ids },
                ),
                other => Step::Ask(
                    UpdateTodoWork::Undoing { error: other.into_error(id) },
                    Statement::Rollback,
                ),
            },
            UpdateTodoWork::Attaching { id } => match answer {
                Answer::Done { .. } => Step::Ask(
                    UpdateTodoWork::Committing { id },
                    Statement::Commit,
                ),
                other => Step::Ask(
                    UpdateTodoWork::Undoing { error: other.into_error(id) },
                    Statement::Rollback,
                ),
            },
            UpdateTodoWork::Committing { id } => match answer {
                Answer::Done { .. } => Step::Ask(
                    UpdateTodoWork::Reading { id },
                    Statement::SelectTodo { id },
                ),
                other => Step::Finish(Err(other.into_error(id))),
            },
            UpdateTodoWork::Reading { id } => Step::Finish(read_todo(id, answer)),
            UpdateTodoWork::Undoing { error } => Step::Finish(Err(error)),
        }
    }
}

/// The unit of work that removes a task on a relational store: begin, detach
/// its labels, remove the task, commit. Each value names the statement that
/// was asked last.
pub enum DeleteTodoWork {
    Beginning { id: i32 },
    Detaching { id: i32 },
    Removing { id: i32 },
    Committing { id: i32 },
    Undoing { error: RepositoryError },
}

/// The mathematical value of a [`DeleteTodoWork`].
pub enum DeleteWorkView {
    Beginning { id: i32 },
    Detaching { id: i32 },
    Removing { id: i32 },
    Committing { id: i32 },
    Undoing { error: ErrorView },
}

impl View for DeleteTodoWork {
    type V = DeleteWorkView;

    open spec fn view(&self) -> DeleteWorkView {
        match self {
            DeleteTodoWork::Beginning { id } => DeleteWorkView::Beginning { id: *id },
            DeleteTodoWork::Detaching { id } => DeleteWorkView::Detaching { id: *id },
            DeleteTodoWork::Removing { id } => DeleteWorkView::Removing { id: *id },
            DeleteTodoWork::Committing { id } => DeleteWorkView::Committing { id: *id },
            DeleteTodoWork::Undoing { error } => DeleteWorkView::Undoing { error: error@ },
        }
    }
}

impl DeleteWorkView {
    /// Whether the unit of work is open: begun, and neither committed nor
    /// rolled back yet.
    pub open spec fn open_unit(self) -> bool {
        self is Detaching || self is Removing
    }

    /// The step that follows the engine's answer to the statement asked last.
    /// Where the removal touches no row, no task has the id: the unit is
    /// rolled back and the outcome is `NotFound`. Inside the open unit any
    /// answer but the awaited one leads to `Rollback`, and the error of that
    /// answer is the outcome.
    pub open spec fn next(self, answer: AnswerView) -> StepView<DeleteWorkView, ()> {
        match self {
            DeleteWorkView::Beginning { id } => match answer {
                AnswerView::Done { .. } => StepView::Ask(
                    DeleteWorkView::Detaching { id },
                    StatementView::DeleteTodoLabels { todo_id: id },
                ),
                other => StepView::Finish(Err(other.error(id))),
            },
            DeleteWorkView::Detaching { id } => match answer {
                AnswerView::Done { .. } => StepView::Ask(
                    DeleteWorkView::Removing { id },
                    StatementView::DeleteTodo { id },
                ),
                other => StepView::Ask(
                    DeleteWorkView::Undoing { error: other.error(id) },
                    StatementView::Rollback,
                ),
            },
            DeleteWorkView::Removing { id } => match answer {
                AnswerView::Done { affected } => if affected == 0 {
                    StepView::Ask(
                        DeleteWorkView::Undoing { error: ErrorView::NotFound(id) },
                        StatementView::Rollback,
                    )
                } else {
                    StepView::Ask(DeleteWorkView::Committing { id }, StatementView::Commit)
                },
                other => StepView::Ask(
                    DeleteWorkView::Undoing { error: other.error(id) },
                    StatementView::Rollback,
                ),
            },
            DeleteWorkView::Committing { id } => match answer {
                AnswerView::Done { .. } => StepView::Finish(Ok(())),
                other => StepView::Finish(Err(other.error(id))),
            },
            DeleteWorkView::Undoing { error } => StepView::Finish(Err(error)),
        }
    }
}

impl DeleteTodoWork {
    /// The unit of work for this id, and its first statement: `Begin`.
    pub fn start(id: i32) -> (first: (DeleteTodoWork, Statement))
        ensures
            first.0@ == (DeleteWorkView::Beginning { id }),
            first.1@ == StatementView::Begin,
    {
        (DeleteTodoWork::Beginning { id }, Statement::Begin)
    }

    /// Takes the engine's answer to the statement asked last and says what
    /// comes next.
    pub fn step(self, answer: Answer) -> (step: Step<DeleteTodoWork, ()>)
        ensures
            step@ == self@.next(answer@),
    {
        match self {
            DeleteTodoWork::Beginning { id } => match answer {
                Answer::Done { .. } => Step::Ask(
                    DeleteTodoWork::Detaching { id },
                    Statement::DeleteTodoLabels { todo_id: id },
                ),
                other => Step::Finish(Err(other.into_error(id))),
            },
            DeleteTodoWork::Detaching { id } => match answer {
                Answer::Done { .. } => Step::Ask(
                    DeleteTodoWork::Removing { id },
                    Statement::DeleteTodo { id },
                ),
                other => Step::Ask(
                    DeleteTodoWork::Undoing { error: other.into_error(id) },
                    Statement::Rollback,
                ),
            },
            DeleteTodoWork::Removing { id } => match answer {
                Answer::Done { affected } => {
                    if affected == 0 {
                        Step::Ask(
                            DeleteTodoWork::Undoing { error: RepositoryError::NotFound(id) },
                            Statement::Rollback,
                        )
                    } else {
                        Step::Ask(DeleteTodoWork::Committing { id }, Statement::Commit)
                    }
                },
                other => Step::Ask(
                    DeleteTodoWork::Undoing { error: other.into_error(id) },
                    Statement::Rollback,
                ),
            },
            DeleteTodoWork::Committing { id } => match answer {
                Answer::Done { .. } => Step::Finish(Ok(())),
                other => Step::Finish(Err(other.into_error(id))),
            },
            DeleteTodoWork::Undoing { error } => Step::Finish(Err(error)),
        }
    }
}

} // verus!
