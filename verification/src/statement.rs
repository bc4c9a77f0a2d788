use vstd::prelude::*;
use crate::error::{ErrorView, RepositoryError};
use crate::label::{label_views, Label, LabelView};
use crate::todo::{row_views, RowView, TodoWithLabelFromRow};

verus! {

/// What a relational store asks of its engine: one statement at a time. The
/// caller runs the statement and hands back the engine's [`Answer`].
#[derive(Debug, PartialEq, Eq)]
pub enum Statement {
    /// Open a unit of work.
    Begin,
    /// Make the unit of work visible, all of it at once.
    Commit,
    /// Drop the unit of work, all of it.
    Rollback,
    /// Insert an open task with this text. Answered by `Inserted`.
    InsertTodo { text: String },
    /// Attach the labels of these ids to a task.
    InsertTodoLabels { todo_id: i32, label_ids: Vec<i32> },
    /// The rows of the join for one task. Answered by `Rows`.
    SelectTodo { id: i32 },
    /// The rows of the join for every task, by descending task id. Answered
    /// by `Rows`.
    SelectTodos,
    /// Set the text and the state of a task.
    UpdateTodo { id: i32, text: String, completed: bool },
    /// Detach every label from a task.
    DeleteTodoLabels { todo_id: i32 },
    /// Remove a task.
    DeleteTodo { id: i32 },
    /// The labels of this name. Answered by `Labels`.
    SelectLabelByName { name: String },
    /// Insert a label of this name. Answered by `Labels`, with the new label.
    InsertLabel { name: String },
    /// Every label by ascending id. Answered by `Labels`.
    SelectLabels,
    /// Remove a label.
    DeleteLabel { id: i32 },
}

/// The mathematical value of a [`Statement`].
pub enum StatementView {
    Begin,
    Commit,
    Rollback,
    InsertTodo { text: Seq<char> },
    InsertTodoLabels { todo_id: i32, label_ids: Seq<i32> },
    SelectTodo { id: i32 },
    SelectTodos,
    UpdateTodo { id: i32, text: Seq<char>, completed: bool },
    DeleteTodoLabels { todo_id: i32 },
    DeleteTodo { id: i32 },
    SelectLabelByName { name: Seq<char> },
    InsertLabel { name: Seq<char> },
    SelectLabels,
    DeleteLabel { id: i32 },
}

impl View for Statement {
    type V = StatementView;

    open spec fn view(&self) -> StatementView {
        match self {
            Statement::Begin => StatementView::Begin,
            Statement::Commit => StatementView::Commit,
            Statement::Rollback => StatementView::Rollback,
            Statement::InsertTodo { text } => StatementView::InsertTodo { text: text@ },
            Statement::InsertTodoLabels { todo_id, label_ids } => StatementView::InsertTodoLabels {
                todo_id: *todo_id,
                label_ids: label_ids@,
            },
            Statement::SelectTodo { id } => StatementView::SelectTodo { id: *id },
            Statement::SelectTodos => StatementView::SelectTodos,
            Statement::UpdateTodo { id, text, completed } => StatementView::UpdateTodo {
                id: *id,
                text: text@,
                completed: *completed,
            },
            Statement::DeleteTodoLabels { todo_id } => StatementView::DeleteTodoLabels {
                todo_id: *todo_id,
            },
            Statement::DeleteTodo { id } => StatementView::DeleteTodo { id: *id },
            Statement::SelectLabelByName { name } => StatementView::SelectLabelByName {
                name: name@,
            },
            Statement::InsertLabel { name } => StatementView::InsertLabel { name: name@ },
            Statement::SelectLabels => StatementView::SelectLabels,
            Statement::DeleteLabel { id } => StatementView::DeleteLabel { id: *id },
        }
    }
}

impl StatementView {
    /// Whether the statement changes what the engine stores.
    pub open spec fn writes(self) -> bool {
        match self {
            StatementView::InsertTodo { .. } => true,
            StatementView::InsertTodoLabels { .. } => true,
            StatementView::UpdateTodo { .. } => true,
            StatementView::DeleteTodoLabels { .. } => true,
            StatementView::DeleteTodo { .. } => true,
            StatementView::InsertLabel { .. } => true,
            StatementView::DeleteLabel { .. } => true,
            _ => false,
        }
    }
}

/// What the engine said to a statement.
#[derive(Debug)]
pub enum Answer {
    /// The statement ran and touched this many rows.
    Done { affected: u64 },
    /// The insert of a task ran; this is the id of the new task.
    Inserted { id: i32 },
    /// The rows that a select of tasks gave.
    Rows { rows: Vec<TodoWithLabelFromRow> },
    /// The labels that a statement on labels gave.
    Labels { labels: Vec<Label> },
    /// The statement failed. `row_not_found` tells the failure of a statement
    /// that asked for a row and found none from every other one.
    Failed { row_not_found: bool, message: String },
}

/// The mathematical value of an [`Answer`].
pub enum AnswerView {
    Done { affected: u64 },
    Inserted { id: i32 },
    Rows { rows: Seq<RowView> },
    Labels { labels: Seq<LabelView> },
    Failed { row_not_found: bool, message: Seq<char> },
}

impl View for Answer {
    type V = AnswerView;

    open spec fn view(&self) -> AnswerView {
        match self {
            Answer::Done { affected } => AnswerView::Done { affected: *affected },
            Answer::Inserted { id } => AnswerView::Inserted { id: *id },
            Answer::Rows { rows } => AnswerView::Rows { rows: row_views(rows@) },
            Answer::Labels { labels } => AnswerView::Labels { labels: label_views(labels@) },
            Answer::Failed { row_not_found, message } => AnswerView::Failed {
                row_not_found: *row_not_found,
                message: message@,
            },
        }
    }
}

/// The message of the failure of a store that was handed an answer of a kind
/// that its statement cannot have.
pub open spec fn answer_does_not_fit() -> Seq<char> {
    "the answer does not fit the statement"@
}

/// The message of the failure of a store that was handed rows which cannot
/// be folded.
pub open spec fn rows_do_not_fit() -> Seq<char> {
    "the rows of a task do not fit together"@
}

impl AnswerView {
    /// The error that a store makes of an answer which is not the one it
    /// needs, while it works on the task or label `id`: a statement that
    /// found no row is `NotFound(id)`, another failure is `Unexpected` with
    /// the engine's message, and an answer of the wrong kind is `Unexpected`.
    pub open spec fn error(self, id: i32) -> ErrorView {
        match self {
            AnswerView::Failed { row_not_found, message } => if row_not_found {
                ErrorView::NotFound(id)
            } else {
                ErrorView::Unexpected(message)
            },
            _ => ErrorView::Unexpected(answer_does_not_fit()),
        }
    }

    /// The error that a store makes of an answer which is not the one it
    /// needs, while it works on no id yet: `Unexpected`, with the engine's
    /// message where the statement failed.
    pub open spec fn plain_error(self) -> ErrorView {
        match self {
            AnswerView::Failed { message, .. } => ErrorView::Unexpected(message),
            _ => ErrorView::Unexpected(answer_does_not_fit()),
        }
    }
}

impl Answer {
    /// The error for an answer which is not the one that the store needs,
    /// while it works on `id`.
    pub fn into_error(self, id: i32) -> (error: RepositoryError)
        ensures
            error@ == self@.error(id),
    {
        match self {
            Answer::Failed { row_not_found, message } => RepositoryError::from_storage(
                id,
                row_not_found,
                message,
            ),
            _ => RepositoryError::Unexpected("the answer does not fit the statement".to_owned()),
        }
    }

    /// The error for an answer which is not the one that the store needs,
    /// while it works on no id yet.
    pub fn into_plain_error(self) -> (error: RepositoryError)
        ensures
            error@ == self@.plain_error(),
    {
        match self {
            Answer::Failed { message, .. } => RepositoryError::Unexpected(message),
            _ => RepositoryError::Unexpected("the answer does not fit the statement".to_owned()),
        }
    }
}

} // verus!
