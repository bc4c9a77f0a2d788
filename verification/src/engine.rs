use vstd::prelude::*;
use crate::join::{join, RecordView};
use crate::label::{has_label_id, has_label_name, place_of_id, place_of_name, LabelView};
use crate::label_memory::LabelStoreView;
use crate::statement::{AnswerView, StatementView};
use crate::todo::{attachable, has_id};
use crate::todo_memory::TodoStoreView;

verus! {

/// A model of the relational engine as the task stores see it: the tables
/// that every reader sees, and the tables of the unit of work that is open.
/// With no unit of work open the two are the same.
pub struct EngineView {
    pub visible: TodoStoreView,
    pub working: TodoStoreView,
}

/// `record` with these label ids behind its own.
pub open spec fn with_more_labels(record: RecordView, ids: Seq<i32>) -> RecordView {
    RecordView { label_ids: record.label_ids + ids, ..record }
}

/// `record` without labels.
pub open spec fn without_labels(record: RecordView) -> RecordView {
    RecordView { label_ids: Seq::empty(), ..record }
}

/// `record` with another text and state.
pub open spec fn rewritten(record: RecordView, text: Seq<char>, completed: bool) -> RecordView {
    RecordView { text, completed, ..record }
}

/// The tables with the record at place `r` replaced.
pub open spec fn with_record(tables: TodoStoreView, r: int, record: RecordView) -> TodoStoreView {
    TodoStoreView { records: tables.records.update(r, record), ..tables }
}

/// Whether the answer is a failure other than that of a statement which
/// asked for a row and found none.
pub open spec fn breaks(answer: AnswerView) -> bool {
    answer matches AnswerView::Failed { row_not_found, .. } && !row_not_found
}

/// Whether the statement names a task that the tables do not have.
pub open spec fn finds_nothing(tables: TodoStoreView, statement: StatementView) -> bool {
    match statement {
        StatementView::SelectTodo { id } => !has_id(tables.todos(), id),
        StatementView::UpdateTodo { id, .. } => !has_id(tables.todos(), id),
        StatementView::DeleteTodo { id } => !has_id(tables.todos(), id),
        _ => false,
    }
}

/// Whether the answer is a failure that the engine can give to the
/// statement without doing anything: it says that no row was found only
/// where the statement names a task that is not there.
pub open spec fn fails(tables: TodoStoreView, statement: StatementView, answer: AnswerView) -> bool {
    answer matches AnswerView::Failed { row_not_found, .. } && (row_not_found ==> finds_nothing(
        tables,
        statement,
    ))
}

/// What a statement on tasks does to the tables when the engine works, and
/// the answer that it gives. The engine keeps its constraints: it gives each
/// task the id after the last one given, attaches only labels that it has
/// and none twice to one task, and removes no task that still has labels.
/// A statement that breaks a constraint fails and changes nothing.
pub open spec fn performs(
    tables: TodoStoreView,
    statement: StatementView,
    after: TodoStoreView,
    answer: AnswerView,
) -> bool {
    let todos = tables.todos();
    match statement {
        StatementView::InsertTodo { text } => if tables.last_id == i32::MAX {
            breaks(answer) && after == tables
        } else {
            let id = (tables.last_id + 1) as i32;
            &&& answer == (AnswerView::Inserted { id })
            &&& after == (TodoStoreView {
                records: tables.records.push(
                    RecordView { id, text, completed: false, label_ids: Seq::empty() },
                ),
                last_id: id,
                ..tables
            })
        },
        StatementView::InsertTodoLabels { todo_id, label_ids } => {
            let r = tables.place(todo_id);
            if has_id(todos, todo_id) && attachable(
                tables.labels,
                tables.records[r].label_ids + label_ids,
            ) {
                &&& answer is Done
                &&& after == with_record(tables, r, with_more_labels(tables.records[r], label_ids))
            } else {
                breaks(answer) && after == tables
            }
        },
        StatementView::SelectTodo { id } => {
            &&& after == tables
            &&& answer == (AnswerView::Rows {
                rows: if has_id(todos, id) {
                    tables.records[tables.place(id)].rows(tables.labels)
                } else {
                    Seq::empty()
                },
            })
        },
        StatementView::SelectTodos => {
            &&& after == tables
            &&& answer == (AnswerView::Rows { rows: join(tables.newest_first(), tables.labels) })
        },
        StatementView::UpdateTodo { id, text, completed } => if has_id(todos, id) {
            let r = tables.place(id);
            &&& answer == (AnswerView::Done { affected: 1 })
            &&& after == with_record(tables, r, rewritten(tables.records[r], text, completed))
        } else {
            answer == (AnswerView::Done { affected: 0 }) && after == tables
        },
        StatementView::DeleteTodoLabels { todo_id } => if has_id(todos, todo_id) {
            let r = tables.place(todo_id);
            &&& answer is Done
            &&& after == with_record(tables, r, without_labels(tables.records[r]))
        } else {
            answer == (AnswerView::Done { affected: 0 }) && after == tables
        },
        StatementView::DeleteTodo { id } => if !has_id(todos, id) {
            answer == (AnswerView::Done { affected: 0 }) && after == tables
        } else if tables.records[tables.place(id)].label_ids.len() > 0 {
            breaks(answer) && after == tables
        } else {
            &&& answer == (AnswerView::Done { affected: 1 })
            &&& after == (TodoStoreView {
                records: tables.records.remove(tables.place(id)),
                ..tables
            })
        },
        _ => breaks(answer) && after == tables,
    }
}

/// Whether the engine can answer `statement` with `answer` and come from
/// `before` to `after`. The engine may fail at any statement, and a failed
/// statement changes nothing; it says that no row was found only where the
/// statement names a task that is not there. `Begin` opens a unit of work on a copy of what
/// is visible. `Commit` makes the unit's tables visible, all at once, or
/// fails and drops them. `Rollback` drops them whatever it answers. Every
/// other statement works on the unit's tables alone.
pub open spec fn answers(
    before: EngineView,
    statement: StatementView,
    answer: AnswerView,
    after: EngineView,
) -> bool {
    match statement {
        StatementView::Begin => {
            ||| answer is Done && after == (EngineView {
                visible: before.visible,
                working: before.visible,
            })
            ||| breaks(answer) && after == before
        },
        StatementView::Commit => {
            ||| answer is Done && after == (EngineView {
                visible: before.working,
                working: before.working,
            })
            ||| breaks(answer) && after == (EngineView {
                visible: before.visible,
                working: before.visible,
            })
        },
        StatementView::Rollback => after == (EngineView {
            visible: before.visible,
            working: before.visible,
        }),
        _ => {
            &&& after.visible == before.visible
            &&& {
                ||| performs(before.working, statement, after.working, answer)
                ||| fails(before.working, statement, answer) && after.working == before.working
            }
        },
    }
}

impl EngineView {
    /// No unit of work is open, and the tables are valid.
    pub open spec fn at_rest(self) -> bool {
        self.working == self.visible && self.visible.valid()
    }
}

/// What a statement on labels does to the table of labels when the engine
/// works, and the answer that it gives. The engine gives each label the id
/// after the last one given.
pub open spec fn performs_on_labels(
    table: LabelStoreView,
    statement: StatementView,
    after: LabelStoreView,
    answer: AnswerView,
) -> bool {
    match statement {
        StatementView::SelectLabelByName { name } => {
            &&& after == table
            &&& answer == (AnswerView::Labels {
                labels: if has_label_name(table.labels, name) {
                    seq![table.labels[place_of_name(table.labels, name)]]
                } else {
                    Seq::empty()
                },
            })
        },
        StatementView::InsertLabel { name } => if table.last_id == i32::MAX {
            breaks(answer) && after == table
        } else {
            let label = LabelView { id: (table.last_id + 1) as i32, name };
            &&& answer == (AnswerView::Labels { labels: seq![label] })
            &&& after == (LabelStoreView { labels: table.labels.push(label), last_id: label.id })
        },
        StatementView::SelectLabels => {
            &&& after == table
            &&& answer == (AnswerView::Labels { labels: table.labels })
        },
        StatementView::DeleteLabel { id } => if has_label_id(table.labels, id) {
            &&& answer == (AnswerView::Done { affected: 1 })
            &&& after == (LabelStoreView {
                labels: table.labels.remove(place_of_id(table.labels, id)),
                ..table
            })
        } else {
            answer == (AnswerView::Done { affected: 0 }) && after == table
        },
        _ => breaks(answer) && after == table,
    }
}

/// Whether the engine can answer a statement on labels with `answer` and
/// come from `before` to `after`: it does what the statement says, or it
/// fails and changes nothing; it says that no row was found only where the
/// statement is the removal of a label that is not there.
pub open spec fn answers_on_labels(
    before: LabelStoreView,
    statement: StatementView,
    answer: AnswerView,
    after: LabelStoreView,
) -> bool {
    ||| performs_on_labels(before, statement, after, answer)
    ||| {
        &&& after == before
        &&& answer matches AnswerView::Failed { row_not_found, .. }
        &&& row_not_found ==> (statement matches StatementView::DeleteLabel { id } && !has_label_id(
            before.labels,
            id,
        ))
    }
}

} // verus!
