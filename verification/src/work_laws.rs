use vstd::prelude::*;
use crate::engine::{
    answers, answers_on_labels, fails, performs, performs_on_labels, rewritten, with_record,
    without_labels, EngineView,
};
use crate::error::ErrorView;
use crate::join::{lemma_fold_join, lemma_fold_task, RecordView};
use crate::label::{
    create_label_post, delete_label_post, has_label_name, lemma_place_of_id, lemma_place_of_name,
    place_of_name, LabelView,
};
use crate::label_memory::LabelStoreView;
use crate::label_work::{delete_label_outcome, list_labels_outcome, CreateLabelView};
use crate::statement::{AnswerView, StatementView};
use crate::todo::{
    create_todo_post, delete_todo_post, find_todo_post, first_with_id, fold, has_id,
    lemma_first_with_id, update_todo_post, CreateView, RowView, TodoView, UpdateView,
};
use crate::todo_memory::TodoStoreView;
use crate::todo_work::{
    read_all_outcome, read_outcome, CreateWorkView, DeleteWorkView, StepView, UpdateWorkView,
};

verus! {

/// The first place of an id depends on the ids alone.
proof fn lemma_first_by_ids(a: Seq<TodoView>, b: Seq<TodoView>, id: i32)
    requires
        a.len() == b.len(),
        forall|k: int| 0 <= k < a.len() ==> (#[trigger] a[k]).id == b[k].id,
    ensures
        first_with_id(a, id) == first_with_id(b, id),
        has_id(a, id) == has_id(b, id),
    decreases a.len(),
{
    lemma_first_with_id(a, id);
    lemma_first_with_id(b, id);
    if a.len() > 0 {
        assert(a[0].id == b[0].id);
        if a[0].id != id {
            assert forall|k: int| 0 <= k < a.drop_first().len() implies (
            #[trigger] a.drop_first()[k]).id == b.drop_first()[k].id by {
                assert(a[k + 1].id == b[k + 1].id);
            }
            lemma_first_by_ids(a.drop_first(), b.drop_first(), id);
        }
    }
}

/// Replacing a record by one of the same id moves no task: every id is
/// found where it was.
proof fn lemma_with_record(tables: TodoStoreView, r: int, record: RecordView, id: i32)
    requires
        0 <= r < tables.records.len(),
        record.id == tables.records[r].id,
    ensures
        has_id(with_record(tables, r, record).todos(), id) == has_id(tables.todos(), id),
        with_record(tables, r, record).place(id) == tables.place(id),
{
    let after = with_record(tables, r, record);
    assert forall|k: int| 0 <= k < tables.todos().len() implies (#[trigger] tables.todos()[k]).id
        == after.todos()[k].id by {}
    lemma_first_by_ids(tables.todos(), after.todos(), id);
}

/// In valid tables the place of an id that a task has is the place of a
/// record, and that record has the id.
proof fn lemma_place(tables: TodoStoreView, id: i32)
    requires
        has_id(tables.todos(), id),
    ensures
        0 <= tables.place(id) < tables.records.len(),
        tables.records[tables.place(id)].id == id,
        tables.todos()[first_with_id(tables.todos(), id)] == tables.records[tables.place(
            id,
        )].todo(tables.labels),
{
    lemma_first_with_id(tables.todos(), id);
}

/// What is left of a run of the delete unit of work: the engine's answers
/// to its statements, one after the other, each with the engine after it.
/// The run gives the outcome of the unit and the engine at its end, or
/// nothing where the answers are not those of the engine or the run does not
/// end with the last of them.
pub open spec fn delete_run(
    work: DeleteWorkView,
    statement: StatementView,
    engine: EngineView,
    trace: Seq<(AnswerView, EngineView)>,
) -> Option<(Result<(), ErrorView>, EngineView)>
    decreases trace.len(),
{
    if trace.len() == 0 {
        None
    } else if !answers(engine, statement, trace[0].0, trace[0].1) {
        None
    } else {
        match work.next(trace[0].0) {
            StepView::Finish(outcome) => if trace.len() == 1 {
                Some((outcome, trace[0].1))
            } else {
                None
            },
            StepView::Ask(next, asked) => delete_run(next, asked, trace[0].1, trace.drop_first()),
        }
    }
}

/// Where the delete unit of work on `start` stands when it has asked
/// `statement` and the engine is `engine`: nothing is visible yet, and the
/// unit's tables hold what was done so far.
spec fn delete_holds(
    start: TodoStoreView,
    id: i32,
    work: DeleteWorkView,
    statement: StatementView,
    engine: EngineView,
) -> bool {
    &&& engine.visible == start
    &&& match work {
        DeleteWorkView::Beginning { id: on } => {
            &&& on == id
            &&& statement == StatementView::Begin
            &&& engine.working == start
        },
        DeleteWorkView::Detaching { id: on } => {
            &&& on == id
            &&& statement == (StatementView::DeleteTodoLabels { todo_id: id })
            &&& engine.working == start
        },
        DeleteWorkView::Removing { id: on } => {
            &&& on == id
            &&& statement == (StatementView::DeleteTodo { id })
            &&& engine.working == if has_id(start.todos(), id) {
                with_record(
                    start,
                    start.place(id),
                    without_labels(start.records[start.place(id)]),
                )
            } else {
                start
            }
        },
        DeleteWorkView::Committing { id: on } => {
            &&& on == id
            &&& statement == StatementView::Commit
            &&& has_id(start.todos(), id)
            &&& engine.working == start.after_delete(id)
        },
        DeleteWorkView::Undoing { error } => {
            &&& statement == StatementView::Rollback
            &&& !(error is Duplicate)
            &&& error is NotFound ==> error == ErrorView::NotFound(id) && !has_id(
                start.todos(),
                id,
            )
        },
    }
}

/// What a finished delete unit of work has done to what is visible.
spec fn delete_done(
    start: TodoStoreView,
    id: i32,
    outcome: Result<(), ErrorView>,
    after: EngineView,
) -> bool {
    &&& after.working == after.visible
    &&& match outcome {
        Ok(_) => has_id(start.todos(), id) && after.visible == start.after_delete(id),
        Err(error) => {
            &&& after.visible == start
            &&& !(error is Duplicate)
            &&& error is NotFound ==> error == ErrorView::NotFound(id) && !has_id(
                start.todos(),
                id,
            )
        },
    }
}

/// From wherever the delete unit of work stands, every run that the engine
/// allows ends as [`delete_done`] says.
proof fn lemma_delete_run(
    start: TodoStoreView,
    id: i32,
    work: DeleteWorkView,
    statement: StatementView,
    engine: EngineView,
    trace: Seq<(AnswerView, EngineView)>,
)
    requires
        start.valid(),
        delete_holds(start, id, work, statement, engine),
        delete_run(work, statement, engine, trace) is Some,
    ensures
        delete_done(
            start,
            id,
            delete_run(work, statement, engine, trace)->Some_0.0,
            delete_run(work, statement, engine, trace)->Some_0.1,
        ),
    decreases trace.len(),
{
    let answer = trace[0].0;
    let after = trace[0].1;
    let tables = engine.working;
    if has_id(start.todos(), id) {
        lemma_place(start, id);
        lemma_with_record(
            start,
            start.place(id),
            without_labels(start.records[start.place(id)]),
            id,
        );
    }
    match work.next(answer) {
        StepView::Finish(outcome) => {},
        StepView::Ask(next, asked) => {
            if work is Removing && has_id(start.todos(), id) && performs(
                tables,
                statement,
                after.working,
                answer,
            ) {
                let r = start.place(id);
                assert(tables.records[r].label_ids.len() == 0);
                assert(after.working.records =~= start.records.remove(r));
            }
            assert(delete_holds(start, id, next, asked, after));
            lemma_delete_run(start, id, next, asked, after, trace.drop_first());
        },
    }
}

/// The delete unit of work is atomic and does what every task store
/// promises. Whatever the engine answers, and wherever it fails, at the end
/// of the unit no unit of work is open, and what is visible is either the
/// tables without the task and its labels, with success as the outcome, or
/// the tables as they were, with an error; `NotFound` comes only where no
/// task has the id.
pub proof fn law_delete_unit(engine: EngineView, id: i32, trace: Seq<(AnswerView, EngineView)>)
    requires
        engine.at_rest(),
        delete_run(DeleteWorkView::Beginning { id }, StatementView::Begin, engine, trace) is Some,
    ensures
        ({
            let end = delete_run(
                DeleteWorkView::Beginning { id },
                StatementView::Begin,
                engine,
                trace,
            )->Some_0;
            &&& end.1.at_rest()
            &&& end.1.visible.labels == engine.visible.labels
            &&& delete_todo_post(engine.visible.todos(), id, end.0, end.1.visible.todos())
            &&& end.0 is Ok ==> end.1.visible == engine.visible.after_delete(id)
            &&& end.0 is Err ==> end.1.visible == engine.visible
        }),
{
    let start = engine.visible;
    lemma_delete_run(
        start,
        id,
        DeleteWorkView::Beginning { id },
        StatementView::Begin,
        engine,
        trace,
    );
    start.lemma_delete(id);
}

/// What a store reads from the engine's answer to `SelectTodo` is what
/// `find` gives on the tables, unless the statement failed; and `NotFound`
/// comes only where no task has the id.
proof fn lemma_read(tables: TodoStoreView, id: i32, answer: AnswerView, after: TodoStoreView)
    requires
        tables.valid(),
        performs(tables, StatementView::SelectTodo { id }, after, answer) || (fails(
            tables,
            StatementView::SelectTodo { id },
            answer,
        ) && after == tables),
    ensures
        after == tables,
        match read_outcome(id, answer) {
            Ok(todo) => tables.find_outcome(id) == Ok::<TodoView, ErrorView>(todo),
            Err(ErrorView::NotFound(missing)) => missing == id && !has_id(tables.todos(), id),
            Err(ErrorView::Unexpected(_)) => true,
            Err(ErrorView::Duplicate(_)) => false,
        },
        answer is Rows ==> read_outcome(id, answer) == tables.find_outcome(id),
{
    if answer is Rows {
        let none = Seq::<RowView>::empty();
        if has_id(tables.todos(), id) {
            lemma_place(tables, id);
            let record = tables.records[tables.place(id)];
            lemma_fold_task(none, record, tables.labels);
            assert(none + record.rows(tables.labels) =~= record.rows(tables.labels));
            assert(fold(none).push(record.todo(tables.labels))[0] == record.todo(tables.labels));
        } else {
            assert(fold(none) =~= Seq::empty());
        }
    }
}

/// On an engine at rest, what a relational store makes of the answer to
/// `SelectTodo` keeps what every task store promises of `find`, and what it
/// makes of the answer to `SelectTodos` is every task by descending id.
pub proof fn law_reads(
    engine: EngineView,
    id: i32,
    answer: AnswerView,
    every: AnswerView,
    after: EngineView,
)
    requires
        engine.at_rest(),
    ensures
        answers(engine, StatementView::SelectTodo { id }, answer, after) ==> {
            &&& after == engine
            &&& find_todo_post(engine.visible.todos(), id, read_outcome(id, answer))
            &&& answer is Rows ==> read_outcome(id, answer) == engine.visible.find_outcome(id)
        },
        answers(engine, StatementView::SelectTodos, every, after) ==> {
            &&& after == engine
            &&& match read_all_outcome(every) {
                Ok(todos) => todos == engine.visible.todos(),
                Err(error) => error is Unexpected,
            }
        },
{
    if answers(engine, StatementView::SelectTodo { id }, answer, after) {
        lemma_read(engine.working, id, answer, after.working);
    }
    if answers(engine, StatementView::SelectTodos, every, after) {
        engine.visible.lemma_descending();
        lemma_fold_join(engine.visible.newest_first(), engine.visible.labels);
    }
}

/// What is left of a run of the create unit of work; see [`delete_run`].
pub open spec fn create_run(
    work: CreateWorkView,
    statement: StatementView,
    engine: EngineView,
    trace: Seq<(AnswerView, EngineView)>,
) -> Option<(Result<TodoView, ErrorView>, EngineView)>
    decreases trace.len(),
{
    if trace.len() == 0 {
        None
    } else if !answers(engine, statement, trace[0].0, trace[0].1) {
        None
    } else {
        match work.next(trace[0].0) {
            StepView::Finish(outcome) => if trace.len() == 1 {
                Some((outcome, trace[0].1))
            } else {
                None
            },
            StepView::Ask(next, asked) => create_run(next, asked, trace[0].1, trace.drop_first()),
        }
    }
}

/// The payload's task without its labels.
spec fn bare(payload: CreateView) -> CreateView {
    CreateView { text: payload.text, labels: Seq::empty() }
}

/// Where the create unit of work on `start` stands when it has asked
/// `statement` and the engine is `engine`.
spec fn create_holds(
    start: TodoStoreView,
    payload: CreateView,
    work: CreateWorkView,
    statement: StatementView,
    engine: EngineView,
) -> bool {
    let id = (start.last_id + 1) as i32;
    match work {
        CreateWorkView::Beginning { payload: given } => {
            &&& given == payload
            &&& statement == StatementView::Begin
            &&& engine.visible == start
            &&& engine.working == start
        },
        CreateWorkView::Inserting { label_ids } => {
            &&& label_ids == payload.labels
            &&& statement == (StatementView::InsertTodo { text: payload.text })
            &&& engine.visible == start
            &&& engine.working == start
        },
        CreateWorkView::Attaching { id: on } => {
            &&& on == id
            &&& start.last_id < i32::MAX
            &&& statement == (StatementView::InsertTodoLabels {
                todo_id: id,
                label_ids: payload.labels,
            })
            &&& engine.visible == start
            &&& engine.working == start.after_create(bare(payload))
        },
        CreateWorkView::Committing { id: on } => {
            &&& on == id
            &&& statement == StatementView::Commit
            &&& start.create_outcome(payload) is Ok
            &&& engine.visible == start
            &&& engine.working == start.after_create(payload)
        },
        CreateWorkView::Reading { id: on } => {
            &&& on == id
            &&& statement == (StatementView::SelectTodo { id })
            &&& start.create_outcome(payload) is Ok
            &&& engine.visible == start.after_create(payload)
            &&& engine.working == start.after_create(payload)
        },
        CreateWorkView::Undoing { error } => {
            &&& statement == StatementView::Rollback
            &&& error is Unexpected
            &&& engine.visible == start
        },
    }
}

/// What a finished create unit of work has done to what is visible.
spec fn create_done(
    start: TodoStoreView,
    payload: CreateView,
    outcome: Result<TodoView, ErrorView>,
    after: EngineView,
) -> bool {
    &&& after.working == after.visible
    &&& match outcome {
        Ok(todo) => {
            &&& start.create_outcome(payload) == Ok::<TodoView, ErrorView>(todo)
            &&& after.visible == start.after_create(payload)
        },
        Err(error) => {
            &&& error is Unexpected
            &&& after.visible == start || (start.create_outcome(payload) is Ok && after.visible
                == start.after_create(payload))
        },
    }
}

/// From wherever the create unit of work stands, every run that the engine
/// allows ends as [`create_done`] says.
proof fn lemma_create_run(
    start: TodoStoreView,
    payload: CreateView,
    work: CreateWorkView,
    statement: StatementView,
    engine: EngineView,
    trace: Seq<(AnswerView, EngineView)>,
)
    requires
        start.valid(),
        create_holds(start, payload, work, statement, engine),
        create_run(work, statement, engine, trace) is Some,
    ensures
        create_done(
            start,
            payload,
            create_run(work, statement, engine, trace)->Some_0.0,
            create_run(work, statement, engine, trace)->Some_0.1,
        ),
    decreases trace.len(),
{
    let answer = trace[0].0;
    let after = trace[0].1;
    let tables = engine.working;
    let id = (start.last_id + 1) as i32;
    let n = start.records.len() as int;
    start.lemma_create(payload);
    start.lemma_create(bare(payload));
    if work is Reading {
        lemma_read(tables, id, answer, after.working);
    }
    if work is Attaching {
        tables.lemma_place_of_record(n);
        assert(tables.records[n].label_ids + payload.labels =~= payload.labels);
        if performs(tables, statement, after.working, answer) && answer is Done {
            assert(after.working.records =~= start.after_create(payload).records);
        }
    }
    match work.next(answer) {
        StepView::Finish(outcome) => {},
        StepView::Ask(next, asked) => {
            assert(create_holds(start, payload, next, asked, after));
            lemma_create_run(start, payload, next, asked, after, trace.drop_first());
        },
    }
}

/// The create unit of work is atomic and does what every task store
/// promises. Whatever the engine answers, and wherever it fails, at the end
/// of the unit no unit of work is open, and what is visible is either the
/// tables with the new task and all its labels, or the tables as they were:
/// a task without its labels is never visible. Success gives the task that
/// the store in memory would give. An error leaves the tables as they were,
/// unless the task was made and only reading it back failed.
pub proof fn law_create_unit(
    engine: EngineView,
    payload: CreateView,
    trace: Seq<(AnswerView, EngineView)>,
)
    requires
        engine.at_rest(),
        create_run(CreateWorkView::Beginning { payload }, StatementView::Begin, engine, trace)
            is Some,
    ensures
        ({
            let end = create_run(
                CreateWorkView::Beginning { payload },
                StatementView::Begin,
                engine,
                trace,
            )->Some_0;
            &&& end.1.at_rest()
            &&& end.1.visible.labels == engine.visible.labels
            &&& create_todo_post(
                engine.visible.todos(),
                engine.visible.labels,
                payload,
                end.0,
                end.1.visible.todos(),
            )
            &&& end.0 is Ok ==> end.0 == engine.visible.create_outcome(payload) && end.1.visible
                == engine.visible.after_create(payload)
            &&& end.0 is Err ==> end.1.visible == engine.visible || end.1.visible
                == engine.visible.after_create(payload)
        }),
{
    let start = engine.visible;
    lemma_create_run(
        start,
        payload,
        CreateWorkView::Beginning { payload },
        StatementView::Begin,
        engine,
        trace,
    );
    start.lemma_create(payload);
}

/// What is left of a run of the update unit of work; see [`delete_run`].
pub open spec fn update_run(
    work: UpdateWorkView,
    statement: StatementView,
    engine: EngineView,
    trace: Seq<(AnswerView, EngineView)>,
) -> Option<(Result<TodoView, ErrorView>, EngineView)>
    decreases trace.len(),
{
    if trace.len() == 0 {
        None
    } else if !answers(engine, statement, trace[0].0, trace[0].1) {
        None
    } else {
        match work.next(trace[0].0) {
            StepView::Finish(outcome) => if trace.len() == 1 {
                Some((outcome, trace[0].1))
            } else {
                None
            },
            StepView::Ask(next, asked) => update_run(next, asked, trace[0].1, trace.drop_first()),
        }
    }
}

/// The record of the task `id` with the text and state that the payload
/// gives it, and its labels as they were.
spec fn written(start: TodoStoreView, id: i32, payload: UpdateView) -> RecordView {
    let record = start.records[start.place(id)];
    rewritten(record, payload.text_over(record.text), payload.completed_over(record.completed))
}

/// Where the update unit of work on `start` stands when it has asked
/// `statement` and the engine is `engine`.
spec fn update_holds(
    start: TodoStoreView,
    id: i32,
    payload: UpdateView,
    work: UpdateWorkView,
    statement: StatementView,
    engine: EngineView,
) -> bool {
    let r = start.place(id);
    match work {
        UpdateWorkView::Beginning { id: on, payload: given } => {
            &&& on == id
            &&& given == payload
            &&& statement == StatementView::Begin
            &&& engine.visible == start
            &&& engine.working == start
        },
        UpdateWorkView::Fetching { id: on, payload: given } => {
            &&& on == id
            &&& given == payload
            &&& statement == (StatementView::SelectTodo { id })
            &&& engine.visible == start
            &&& engine.working == start
        },
        UpdateWorkView::Writing { id: on, new_labels } => {
            &&& on == id
            &&& new_labels == payload.labels
            &&& has_id(start.todos(), id)
            &&& statement == (StatementView::UpdateTodo {
                id,
                text: written(start, id, payload).text,
                completed: written(start, id, payload).completed,
            })
            &&& engine.visible == start
            &&& engine.working == start
        },
        UpdateWorkView::Detaching { id: on, label_ids } => {
            &&& on == id
            &&& payload.labels == Some(label_ids)
            &&& has_id(start.todos(), id)
            &&& statement == (StatementView::DeleteTodoLabels { todo_id: id })
            &&& engine.visible == start
            &&& engine.working == with_record(start, r, written(start, id, payload))
        },
        UpdateWorkView::Attaching { id: on } => {
            &&& on == id
            &&& payload.labels is Some
            &&& has_id(start.todos(), id)
            &&& statement == (StatementView::InsertTodoLabels {
                todo_id: id,
                label_ids: payload.labels->Some_0,
            })
            &&& engine.visible == start
            &&& engine.working == with_record(
                start,
                r,
                without_labels(written(start, id, payload)),
            )
        },
        UpdateWorkView::Committing { id: on } => {
            &&& on == id
            &&& statement == StatementView::Commit
            &&& start.update_outcome(id, payload) is Ok
            &&& engine.visible == start
            &&& engine.working == start.after_update(id, payload)
        },
        UpdateWorkView::Reading { id: on } => {
            &&& on == id
            &&& statement == (StatementView::SelectTodo { id })
            &&& start.update_outcome(id, payload) is Ok
            &&& engine.visible == start.after_update(id, payload)
            &&& engine.working == start.after_update(id, payload)
        },
        UpdateWorkView::Undoing { error } => {
            &&& statement == StatementView::Rollback
            &&& !(error is Duplicate)
            &&& error is NotFound ==> error == ErrorView::NotFound(id) && !has_id(
                start.todos(),
                id,
            )
            &&& engine.visible == start
        },
    }
}

/// What a finished update unit of work has done to what is visible.
spec fn update_done(
    start: TodoStoreView,
    id: i32,
    payload: UpdateView,
    outcome: Result<TodoView, ErrorView>,
    after: EngineView,
) -> bool {
    &&& after.working == after.visible
    &&& match outcome {
        Ok(todo) => {
            &&& start.update_outcome(id, payload) == Ok::<TodoView, ErrorView>(todo)
            &&& after.visible == start.after_update(id, payload)
        },
        Err(ErrorView::NotFound(missing)) => {
            missing == id && !has_id(start.todos(), id) && after.visible == start
        },
        Err(ErrorView::Unexpected(_)) => {
            after.visible == start || (start.update_outcome(id, payload) is Ok && after.visible
                == start.after_update(id, payload))
        },
        Err(ErrorView::Duplicate(_)) => false,
    }
}

/// From wherever the update unit of work stands, every run that the engine
/// allows ends as [`update_done`] says.
proof fn lemma_update_run(
    start: TodoStoreView,
    id: i32,
    payload: UpdateView,
    work: UpdateWorkView,
    statement: StatementView,
    engine: EngineView,
    trace: Seq<(AnswerView, EngineView)>,
)
    requires
        start.valid(),
        update_holds(start, id, payload, work, statement, engine),
        update_run(work, statement, engine, trace) is Some,
    ensures
        update_done(
            start,
            id,
            payload,
            update_run(work, statement, engine, trace)->Some_0.0,
            update_run(work, statement, engine, trace)->Some_0.1,
        ),
    decreases trace.len(),
{
    let answer = trace[0].0;
    let after = trace[0].1;
    let tables = engine.working;
    let r = start.place(id);
    start.lemma_update(id, payload);
    if work is Reading {
        lemma_read(tables, id, answer, after.working);
    }
    if work is Fetching {
        lemma_read(tables, id, answer, after.working);
        if has_id(start.todos(), id) {
            lemma_place(start, id);
        }
    }
    if has_id(start.todos(), id) {
        lemma_place(start, id);
        let record = written(start, id, payload);
        lemma_with_record(start, r, record, id);
        lemma_with_record(start, r, without_labels(record), id);
        if work is Writing && answer is Done {
            assert(after.working.records =~= with_record(start, r, record).records);
            if payload.labels is None {
                assert(after.working.records =~= start.after_update(id, payload).records);
            }
        }
        if work is Detaching && answer is Done {
            assert(after.working.records =~= with_record(
                start,
                r,
                without_labels(record),
            ).records);
        }
        if work is Attaching {
            let ids = payload.labels->Some_0;
            assert(tables.records[r].label_ids + ids =~= ids);
            if performs(tables, statement, after.working, answer) && answer is Done {
                assert(after.working.records =~= start.after_update(id, payload).records);
            }
        }
    }
    match work.next(answer) {
        StepView::Finish(outcome) => {},
        StepView::Ask(next, asked) => {
            assert(update_holds(start, id, payload, next, asked, after));
            lemma_update_run(start, id, payload, next, asked, after, trace.drop_first());
        },
    }
}

/// The update unit of work is atomic and does what every task store
/// promises. Whatever the engine answers, and wherever it fails, at the end
/// of the unit no unit of work is open, and what is visible is either the
/// tables with the task changed, text, state and labels together, or the
/// tables as they were: a task with its new text and its old labels is never
/// visible. Success gives the task that the store in memory would give.
/// `NotFound` comes only where no task has the id. An error leaves the
/// tables as they were, unless the change was made and only reading it back
/// failed.
pub proof fn law_update_unit(
    engine: EngineView,
    id: i32,
    payload: UpdateView,
    trace: Seq<(AnswerView, EngineView)>,
)
    requires
        engine.at_rest(),
        update_run(
            UpdateWorkView::Beginning { id, payload },
            StatementView::Begin,
            engine,
            trace,
        ) is Some,
    ensures
        ({
            let end = update_run(
                UpdateWorkView::Beginning { id, payload },
                StatementView::Begin,
                engine,
                trace,
            )->Some_0;
            &&& end.1.at_rest()
            &&& end.1.visible.labels == engine.visible.labels
            &&& update_todo_post(
                engine.visible.todos(),
                engine.visible.labels,
                id,
                payload,
                end.0,
                end.1.visible.todos(),
            )
            &&& end.0 is Ok ==> end.0 == engine.visible.update_outcome(id, payload)
                && end.1.visible == engine.visible.after_update(id, payload)
            &&& end.0 is Err ==> end.1.visible == engine.visible || end.1.visible
                == engine.visible.after_update(id, payload)
        }),
{
    let start = engine.visible;
    lemma_update_run(
        start,
        id,
        payload,
        UpdateWorkView::Beginning { id, payload },
        StatementView::Begin,
        engine,
        trace,
    );
    start.lemma_update(id, payload);
}

/// The work of making a label on a relational store does what every label
/// store promises. Where the engine has a label of the name, and the search
/// does not fail, the work ends at once with `Duplicate` of that label's id
/// and inserts nothing. Where it has none, the work asks for the insert,
/// and then ends with the new label or, where the insert failed, with an
/// error and the table as it was.
pub proof fn law_create_label_work(
    table: LabelStoreView,
    name: Seq<char>,
    found: AnswerView,
    between: LabelStoreView,
    inserted: AnswerView,
    after: LabelStoreView,
)
    requires
        table.valid(),
        answers_on_labels(table, StatementView::SelectLabelByName { name }, found, between),
    ensures
        between == table,
        match (CreateLabelView::Looking { name }).next(found) {
            StepView::Finish(outcome) => {
                &&& outcome is Err
                &&& create_label_post(table.labels, name, outcome, between.labels)
                &&& found is Labels ==> has_label_name(table.labels, name) && outcome == Err::<
                    LabelView,
                    ErrorView,
                >(ErrorView::Duplicate(table.labels[place_of_name(table.labels, name)].id))
            },
            StepView::Ask(work, statement) => {
                &&& !has_label_name(table.labels, name)
                &&& statement == (StatementView::InsertLabel { name })
                &&& answers_on_labels(between, statement, inserted, after) ==> {
                    &&& after.valid()
                    &&& work.next(inserted) matches StepView::Finish(outcome)
                    &&& create_label_post(table.labels, name, outcome, after.labels)
                    &&& inserted is Labels ==> outcome == table.create_outcome(name) && after
                        == table.after_create(name)
                }
            },
        },
{
    lemma_place_of_name(table.labels, name);
    match (CreateLabelView::Looking { name }).next(found) {
        StepView::Finish(outcome) => {},
        StepView::Ask(work, statement) => {
            if answers_on_labels(between, statement, inserted, after) && inserted is Labels {
                let label = LabelView { id: (table.last_id + 1) as i32, name };
                lemma_place_of_id(table.labels, label.id);
                assert(inserted->labels[0] == label);
                assert forall|i: int, j: int| 0 <= i < j < after.labels.len() implies after.labels[i].id
                    < after.labels[j].id && after.labels[i].name != after.labels[j].name by {
                    if j == table.labels.len() {
                        assert(table.labels[i].id <= table.last_id);
                    }
                }
                if exists|k: int| 0 <= k < table.labels.len() && #[trigger] table.labels[k].id
                    == label.id {
                    let k = choose|k: int| 0 <= k < table.labels.len() && #[trigger] table.labels[k].id
                        == label.id;
                    assert(table.labels[k].id <= table.last_id);
                }
            }
        },
    }
}

/// On a relational label store a second `create` with the name of a label
/// just made fails with `Duplicate` of that label's id, where the engine
/// answers the search.
pub proof fn law_create_label_twice_on_engine(
    table: LabelStoreView,
    name: Seq<char>,
    found: AnswerView,
    after: LabelStoreView,
)
    requires
        table.valid(),
        table.create_outcome(name) is Ok,
        performs_on_labels(
            table.after_create(name),
            StatementView::SelectLabelByName { name },
            after,
            found,
        ),
    ensures
        after == table.after_create(name),
        (CreateLabelView::Looking { name }).next(found) == StepView::<
            CreateLabelView,
            LabelView,
        >::Finish(Err(ErrorView::Duplicate(table.create_outcome(name)->Ok_0.id))),
{
    let made = table.after_create(name);
    lemma_place_of_name(table.labels, name);
    lemma_place_of_name(made.labels, name);
    if !has_label_name(table.labels, name) {
        let n = table.labels.len() as int;
        assert(made.labels[n].name == name);
        let p = place_of_name(made.labels, name);
        if p < n {
            assert(made.labels[p] == table.labels[p]);
        }
    }
}

/// On a relational label store `delete` and `all` do what every label store
/// promises: the removal of a label that is not there is `NotFound` of its
/// id, and the labels come as the engine keeps them, by ascending id.
pub proof fn law_label_statements(
    table: LabelStoreView,
    id: i32,
    removed: AnswerView,
    listed: AnswerView,
    after: LabelStoreView,
)
    requires
        table.valid(),
    ensures
        answers_on_labels(table, StatementView::DeleteLabel { id }, removed, after) ==> {
            &&& delete_label_post(
                table.labels,
                id,
                delete_label_outcome(id, removed),
                after.labels,
            )
            &&& removed is Done ==> delete_label_outcome(id, removed) == table.delete_outcome(id)
                && after == table.after_delete(id)
        },
        answers_on_labels(table, StatementView::SelectLabels, listed, after) ==> {
            &&& after == table
            &&& match list_labels_outcome(listed) {
                Ok(labels) => labels == table.labels,
                Err(error) => error is Unexpected,
            }
        },
{
}

} // verus!
