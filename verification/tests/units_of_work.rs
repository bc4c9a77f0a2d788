use todo_repository::error::RepositoryError;
use todo_repository::label::Label;
use todo_repository::label_work::{label_deleted, labels_listed, CreateLabelWork};
use todo_repository::statement::{Answer, Statement};
use todo_repository::todo::{
    CreateTodo, TodoEntity, TodoRepository, TodoWithLabelFromRow, UpdateTodo,
};
use todo_repository::todo_memory::TodoRepositoryForMemory;
use todo_repository::todo_work::{
    read_todo, read_todos, CreateTodoWork, DeleteTodoWork, Step, UpdateTodoWork,
};

/// What the engine of these tests stores.
#[derive(Clone, Debug, PartialEq)]
struct Tables {
    todos: Vec<(i32, String, bool)>,
    links: Vec<(i32, i32)>,
    labels: Vec<(i32, String)>,
    last_todo: i32,
    last_label: i32,
}

/// A small engine with units of work, for the stores to talk to.
struct Engine {
    visible: Tables,
    working: Tables,
    asked: Vec<Statement>,
    fail_on: Option<usize>,
}

fn failed(message: &str) -> Answer {
    Answer::Failed { row_not_found: false, message: message.to_string() }
}

impl Engine {
    fn new(labels: &[(i32, &str)]) -> Engine {
        let tables = Tables {
            todos: vec![],
            links: vec![],
            labels: labels.iter().map(|(id, name)| (*id, name.to_string())).collect(),
            last_todo: 0,
            last_label: labels.iter().map(|(id, _)| *id).max().unwrap_or(0),
        };
        Engine { visible: tables.clone(), working: tables, asked: vec![], fail_on: None }
    }

    fn rows_of(&self, id: i32) -> Vec<TodoWithLabelFromRow> {
        let mut rows = vec![];
        for (todo_id, text, completed) in self.working.todos.iter() {
            if *todo_id != id {
                continue;
            }
            let mut any = false;
            for (linked, label_id) in self.working.links.iter() {
                if *linked != id {
                    continue;
                }
                let name = self.working.labels.iter().find(|(l, _)| l == label_id).unwrap();
                rows.push(TodoWithLabelFromRow {
                    id,
                    text: text.clone(),
                    completed: *completed,
                    label_id: Some(*label_id),
                    label_name: Some(name.1.clone()),
                });
                any = true;
            }
            if !any {
                rows.push(TodoWithLabelFromRow {
                    id,
                    text: text.clone(),
                    completed: *completed,
                    label_id: None,
                    label_name: None,
                });
            }
        }
        rows
    }

    fn answer(&mut self, statement: &Statement) -> Answer {
        match statement {
            Statement::Begin => {
                self.working = self.visible.clone();
                Answer::Done { affected: 0 }
            }
            Statement::Commit => {
                self.visible = self.working.clone();
                Answer::Done { affected: 0 }
            }
            Statement::Rollback => {
                self.working = self.visible.clone();
                Answer::Done { affected: 0 }
            }
            Statement::InsertTodo { text } => {
                self.working.last_todo += 1;
                let id = self.working.last_todo;
                self.working.todos.push((id, text.clone(), false));
                Answer::Inserted { id }
            }
            Statement::InsertTodoLabels { todo_id, label_ids } => {
                for label_id in label_ids {
                    if !self.working.labels.iter().any(|(id, _)| id == label_id) {
                        return failed("no such label");
                    }
                    if self.working.links.contains(&(*todo_id, *label_id)) {
                        return failed("label attached twice");
                    }
                    self.working.links.push((*todo_id, *label_id));
                }
                Answer::Done { affected: label_ids.len() as u64 }
            }
            Statement::SelectTodo { id } => Answer::Rows { rows: self.rows_of(*id) },
            Statement::SelectTodos => {
                let mut ids: Vec<i32> = self.working.todos.iter().map(|t| t.0).collect();
                ids.sort();
                ids.reverse();
                Answer::Rows { rows: ids.into_iter().flat_map(|id| self.rows_of(id)).collect() }
            }
            Statement::UpdateTodo { id, text, completed } => {
                let mut affected = 0;
                for todo in self.working.todos.iter_mut() {
                    if todo.0 == *id {
                        todo.1 = text.clone();
                        todo.2 = *completed;
                        affected += 1;
                    }
                }
                Answer::Done { affected }
            }
            Statement::DeleteTodoLabels { todo_id } => {
                let before = self.working.links.len();
                self.working.links.retain(|(id, _)| id != todo_id);
                Answer::Done { affected: (before - self.working.links.len()) as u64 }
            }
            Statement::DeleteTodo { id } => {
                let before = self.working.todos.len();
                self.working.todos.retain(|todo| todo.0 != *id);
                Answer::Done { affected: (before - self.working.todos.len()) as u64 }
            }
            Statement::SelectLabelByName { name } => Answer::Labels {
                labels: self
                    .visible
                    .labels
                    .iter()
                    .filter(|(_, n)| n == name)
                    .map(|(id, n)| Label::new(*id, n.clone()))
                    .collect(),
            },
            Statement::InsertLabel { name } => {
                self.visible.last_label += 1;
                let id = self.visible.last_label;
                self.visible.labels.push((id, name.clone()));
                Answer::Labels { labels: vec![Label::new(id, name.clone())] }
            }
            Statement::SelectLabels => Answer::Labels {
                labels: self.visible.labels.iter().map(|(id, n)| Label::new(*id, n.clone())).collect(),
            },
            Statement::DeleteLabel { id } => {
                let before = self.visible.labels.len();
                self.visible.labels.retain(|(l, _)| l != id);
                Answer::Done { affected: (before - self.visible.labels.len()) as u64 }
            }
        }
    }

    fn run(&mut self, statement: Statement) -> Answer {
        let answer = if self.fail_on == Some(self.asked.len()) {
            failed("the engine broke")
        } else {
            self.answer(&statement)
        };
        self.asked.push(statement);
        answer
    }

    fn create(&mut self, payload: CreateTodo) -> Result<TodoEntity, RepositoryError> {
        let (mut work, mut statement) = CreateTodoWork::start(payload);
        loop {
            let answer = self.run(statement);
            match work.step(answer) {
                Step::Ask(next, asked) => {
                    work = next;
                    statement = asked;
                }
                Step::Finish(outcome) => return outcome,
            }
        }
    }

    fn update(&mut self, id: i32, payload: UpdateTodo) -> Result<TodoEntity, RepositoryError> {
        let (mut work, mut statement) = UpdateTodoWork::start(id, payload);
        loop {
            let answer = self.run(statement);
            match work.step(answer) {
                Step::Ask(next, asked) => {
                    work = next;
                    statement = asked;
                }
                Step::Finish(outcome) => return outcome,
            }
        }
    }

    fn delete(&mut self, id: i32) -> Result<(), RepositoryError> {
        let (mut work, mut statement) = DeleteTodoWork::start(id);
        loop {
            let answer = self.run(statement);
            match work.step(answer) {
                Step::Ask(next, asked) => {
                    work = next;
                    statement = asked;
                }
                Step::Finish(outcome) => return outcome,
            }
        }
    }

    fn create_label(&mut self, name: &str) -> Result<Label, RepositoryError> {
        let (mut work, mut statement) = CreateLabelWork::start(name.to_string());
        loop {
            let answer = self.run(statement);
            match work.step(answer) {
                Step::Ask(next, asked) => {
                    work = next;
                    statement = asked;
                }
                Step::Finish(outcome) => return outcome,
            }
        }
    }

    fn find(&mut self, id: i32) -> Result<TodoEntity, RepositoryError> {
        let answer = self.run(Statement::SelectTodo { id });
        read_todo(id, answer)
    }

    fn all(&mut self) -> Result<Vec<TodoEntity>, RepositoryError> {
        let answer = self.run(Statement::SelectTodos);
        read_todos(answer)
    }
}

fn home_and_work() -> Engine {
    Engine::new(&[(1, "home"), (2, "work")])
}

#[test]
fn create_asks_begin_insert_attach_commit_read() {
    let mut engine = home_and_work();
    let made = engine.create(CreateTodo::new("write".to_string(), vec![2, 1])).unwrap();
    assert_eq!(
        made,
        TodoEntity {
            id: 1,
            text: "write".to_string(),
            completed: false,
            labels: vec![Label::new(2, "work".to_string()), Label::new(1, "home".to_string())],
        }
    );
    assert_eq!(
        engine.asked,
        vec![
            Statement::Begin,
            Statement::InsertTodo { text: "write".to_string() },
            Statement::InsertTodoLabels { todo_id: 1, label_ids: vec![2, 1] },
            Statement::Commit,
            Statement::SelectTodo { id: 1 },
        ]
    );
}

#[test]
fn create_without_labels_is_found_open_and_bare() {
    let mut engine = home_and_work();
    let made = engine.create(CreateTodo::new("plain".to_string(), vec![])).unwrap();
    assert_eq!(made, TodoEntity::new(1, "plain".to_string()));
    assert_eq!(engine.find(1), Ok(made));
}

#[test]
fn create_that_cannot_attach_rolls_back_and_leaves_nothing() {
    let mut engine = home_and_work();
    let before = engine.visible.clone();
    let outcome = engine.create(CreateTodo::new("bad".to_string(), vec![1, 9]));
    assert_eq!(outcome, Err(RepositoryError::Unexpected("no such label".to_string())));
    assert_eq!(engine.asked.last(), Some(&Statement::Rollback));
    assert!(!engine.asked.contains(&Statement::Commit));
    assert_eq!(engine.visible, before);
    assert_eq!(engine.working, before);
}

#[test]
fn create_finishes_at_once_when_begin_fails() {
    let mut engine = home_and_work();
    engine.fail_on = Some(0);
    let outcome = engine.create(CreateTodo::new("t".to_string(), vec![]));
    assert_eq!(outcome, Err(RepositoryError::Unexpected("the engine broke".to_string())));
    assert_eq!(engine.asked, vec![Statement::Begin]);
}

#[test]
fn create_rolls_back_when_the_insert_fails() {
    let mut engine = home_and_work();
    engine.fail_on = Some(1);
    let outcome = engine.create(CreateTodo::new("t".to_string(), vec![1]));
    assert_eq!(outcome, Err(RepositoryError::Unexpected("the engine broke".to_string())));
    assert_eq!(
        engine.asked,
        vec![
            Statement::Begin,
            Statement::InsertTodo { text: "t".to_string() },
            Statement::Rollback,
        ]
    );
}

#[test]
fn create_does_not_roll_back_after_a_failed_commit() {
    let mut engine = home_and_work();
    engine.fail_on = Some(3);
    let outcome = engine.create(CreateTodo::new("t".to_string(), vec![1]));
    assert_eq!(outcome, Err(RepositoryError::Unexpected("the engine broke".to_string())));
    assert_eq!(engine.asked.last(), Some(&Statement::Commit));
    assert_eq!(engine.asked.len(), 4);
}

#[test]
fn the_error_of_a_rollback_does_not_hide_the_first_error() {
    let (work, _) = CreateTodoWork::start(CreateTodo::new("t".to_string(), vec![]));
    let work = match work.step(Answer::Done { affected: 0 }) {
        Step::Ask(work, _) => work,
        Step::Finish(_) => panic!("finished too early"),
    };
    let work = match work.step(failed("first")) {
        Step::Ask(work, statement) => {
            assert_eq!(statement, Statement::Rollback);
            work
        }
        Step::Finish(_) => panic!("finished without rollback"),
    };
    match work.step(failed("second")) {
        Step::Finish(outcome) => {
            assert_eq!(outcome, Err(RepositoryError::Unexpected("first".to_string())))
        }
        Step::Ask(..) => panic!("asked after rollback"),
    }
}

#[test]
fn an_answer_of_the_wrong_kind_is_an_error() {
    let (work, _) = CreateTodoWork::start(CreateTodo::new("t".to_string(), vec![]));
    match work.step(Answer::Inserted { id: 4 }) {
        Step::Finish(outcome) => assert_eq!(
            outcome,
            Err(RepositoryError::Unexpected("the answer does not fit the statement".to_string()))
        ),
        Step::Ask(..) => panic!("went on after a wrong answer"),
    }
    assert_eq!(
        read_todo(1, Answer::Done { affected: 1 }),
        Err(RepositoryError::Unexpected("the answer does not fit the statement".to_string()))
    );
    assert_eq!(
        read_todos(Answer::Labels { labels: vec![] }),
        Err(RepositoryError::Unexpected("the answer does not fit the statement".to_string()))
    );
}

#[test]
fn update_reads_writes_replaces_commits_and_reads() {
    let mut engine = home_and_work();
    engine.create(CreateTodo::new("old".to_string(), vec![1])).unwrap();
    engine.asked.clear();
    let changed = engine
        .update(
            1,
            UpdateTodo { text: Some("new".to_string()), completed: None, labels: Some(vec![2]) },
        )
        .unwrap();
    assert_eq!(
        changed,
        TodoEntity {
            id: 1,
            text: "new".to_string(),
            completed: false,
            labels: vec![Label::new(2, "work".to_string())],
        }
    );
    assert_eq!(
        engine.asked,
        vec![
            Statement::Begin,
            Statement::SelectTodo { id: 1 },
            Statement::UpdateTodo { id: 1, text: "new".to_string(), completed: false },
            Statement::DeleteTodoLabels { todo_id: 1 },
            Statement::InsertTodoLabels { todo_id: 1, label_ids: vec![2] },
            Statement::Commit,
            Statement::SelectTodo { id: 1 },
        ]
    );
}

#[test]
fn update_without_labels_does_not_touch_them() {
    let mut engine = home_and_work();
    engine.create(CreateTodo::new("old".to_string(), vec![1, 2])).unwrap();
    engine.asked.clear();
    let changed = engine
        .update(1, UpdateTodo { text: None, completed: Some(true), labels: None })
        .unwrap();
    assert_eq!(changed.text, "old");
    assert!(changed.completed);
    assert_eq!(changed.labels.len(), 2);
    assert_eq!(
        engine.asked,
        vec![
            Statement::Begin,
            Statement::SelectTodo { id: 1 },
            Statement::UpdateTodo { id: 1, text: "old".to_string(), completed: true },
            Statement::Commit,
            Statement::SelectTodo { id: 1 },
        ]
    );
}

#[test]
fn update_with_an_empty_list_clears_the_labels_in_the_engine() {
    let mut engine = home_and_work();
    engine.create(CreateTodo::new("t".to_string(), vec![1, 2])).unwrap();
    let changed = engine
        .update(1, UpdateTodo { text: None, completed: None, labels: Some(vec![]) })
        .unwrap();
    assert_eq!(changed.labels, vec![]);
    assert_eq!(engine.find(1).unwrap().labels, vec![]);
}

#[test]
fn update_of_a_missing_task_rolls_back_with_not_found() {
    let mut engine = home_and_work();
    let outcome = engine.update(8, UpdateTodo { text: None, completed: None, labels: None });
    assert_eq!(outcome, Err(RepositoryError::NotFound(8)));
    assert_eq!(
        engine.asked,
        vec![Statement::Begin, Statement::SelectTodo { id: 8 }, Statement::Rollback]
    );
}

#[test]
fn update_that_cannot_attach_keeps_text_and_labels_together() {
    let mut engine = home_and_work();
    let made = engine.create(CreateTodo::new("old".to_string(), vec![1])).unwrap();
    let outcome = engine.update(
        1,
        UpdateTodo { text: Some("new".to_string()), completed: Some(true), labels: Some(vec![7]) },
    );
    assert_eq!(outcome, Err(RepositoryError::Unexpected("no such label".to_string())));
    assert_eq!(engine.asked.last(), Some(&Statement::Rollback));
    assert_eq!(engine.find(1), Ok(made));
}

#[test]
fn update_whose_write_touches_no_row_is_not_found() {
    let (work, _) = UpdateTodoWork::start(
        3,
        UpdateTodo { text: None, completed: None, labels: None },
    );
    let work = match work.step(Answer::Done { affected: 0 }) {
        Step::Ask(work, _) => work,
        Step::Finish(_) => panic!("finished too early"),
    };
    let row = TodoWithLabelFromRow {
        id: 3,
        text: "t".to_string(),
        completed: false,
        label_id: None,
        label_name: None,
    };
    let work = match work.step(Answer::Rows { rows: vec![row] }) {
        Step::Ask(work, statement) => {
            assert_eq!(
                statement,
                Statement::UpdateTodo { id: 3, text: "t".to_string(), completed: false }
            );
            work
        }
        Step::Finish(_) => panic!("finished too early"),
    };
    let work = match work.step(Answer::Done { affected: 0 }) {
        Step::Ask(work, statement) => {
            assert_eq!(statement, Statement::Rollback);
            work
        }
        Step::Finish(_) => panic!("finished without rollback"),
    };
    match work.step(Answer::Done { affected: 0 }) {
        Step::Finish(outcome) => assert_eq!(outcome, Err(RepositoryError::NotFound(3))),
        Step::Ask(..) => panic!("asked after rollback"),
    }
}

#[test]
fn delete_detaches_removes_and_commits() {
    let mut engine = home_and_work();
    engine.create(CreateTodo::new("t".to_string(), vec![1, 2])).unwrap();
    engine.asked.clear();
    assert_eq!(engine.delete(1), Ok(()));
    assert_eq!(
        engine.asked,
        vec![
            Statement::Begin,
            Statement::DeleteTodoLabels { todo_id: 1 },
            Statement::DeleteTodo { id: 1 },
            Statement::Commit,
        ]
    );
    assert_eq!(engine.find(1), Err(RepositoryError::NotFound(1)));
    assert!(engine.visible.links.is_empty());
    assert!(engine.visible.todos.is_empty());
}

#[test]
fn delete_of_a_missing_task_rolls_back_with_not_found() {
    let mut engine = home_and_work();
    assert_eq!(engine.delete(5), Err(RepositoryError::NotFound(5)));
    assert_eq!(engine.asked.last(), Some(&Statement::Rollback));
    assert!(!engine.asked.contains(&Statement::Commit));
}

#[test]
fn delete_that_fails_half_way_keeps_the_labels_attached() {
    let mut engine = home_and_work();
    let made = engine.create(CreateTodo::new("t".to_string(), vec![1, 2])).unwrap();
    let asked = engine.asked.len();
    engine.fail_on = Some(asked + 2);
    assert_eq!(
        engine.delete(1),
        Err(RepositoryError::Unexpected("the engine broke".to_string()))
    );
    assert_eq!(engine.asked.last(), Some(&Statement::Rollback));
    engine.fail_on = None;
    assert_eq!(engine.find(1), Ok(made));
}

#[test]
fn a_statement_that_found_no_row_is_not_found() {
    let (work, _) = DeleteTodoWork::start(6);
    let answer = Answer::Failed { row_not_found: true, message: "no rows".to_string() };
    match work.step(answer) {
        Step::Finish(outcome) => assert_eq!(outcome, Err(RepositoryError::NotFound(6))),
        Step::Ask(..) => panic!("went on after a failed begin"),
    }
}

#[test]
fn all_folds_the_rows_of_every_task() {
    let mut engine = home_and_work();
    engine.create(CreateTodo::new("one".to_string(), vec![1])).unwrap();
    engine.create(CreateTodo::new("two".to_string(), vec![])).unwrap();
    let all = engine.all().unwrap();
    assert_eq!(
        all,
        vec![
            TodoEntity::new(2, "two".to_string()),
            TodoEntity {
                id: 1,
                text: "one".to_string(),
                completed: false,
                labels: vec![Label::new(1, "home".to_string())],
            },
        ]
    );
}

#[test]
fn rows_that_cannot_be_folded_are_an_error() {
    let bare = |id: i32| TodoWithLabelFromRow {
        id,
        text: "t".to_string(),
        completed: false,
        label_id: None,
        label_name: None,
    };
    let message = "the rows of a task do not fit together".to_string();
    assert_eq!(
        read_todo(1, Answer::Rows { rows: vec![bare(1), bare(1)] }),
        Err(RepositoryError::Unexpected(message.clone()))
    );
    assert_eq!(
        read_todos(Answer::Rows { rows: vec![bare(1), bare(1)] }),
        Err(RepositoryError::Unexpected(message))
    );
}

#[test]
fn the_engine_and_the_store_in_memory_agree() {
    let mut engine = home_and_work();
    let mut memory = TodoRepositoryForMemory::with_labels(vec![
        Label::new(1, "home".to_string()),
        Label::new(2, "work".to_string()),
    ]);
    let first = CreateTodo::new("first".to_string(), vec![2, 1]);
    assert_eq!(engine.create(first.clone()), memory.create(first));
    let second = CreateTodo::new("second".to_string(), vec![]);
    assert_eq!(engine.create(second.clone()), memory.create(second));
    let change = UpdateTodo { text: Some("changed".to_string()), completed: Some(true), labels: None };
    assert_eq!(engine.update(1, change.clone()), memory.update(1, change));
    let clear = UpdateTodo { text: None, completed: None, labels: Some(vec![]) };
    assert_eq!(engine.update(2, clear.clone()), memory.update(2, clear));
    assert_eq!(engine.all(), memory.all());
    assert_eq!(engine.delete(1), memory.delete(1));
    assert_eq!(engine.delete(1), memory.delete(1));
    assert_eq!(engine.find(1), memory.find(1));
    assert_eq!(engine.find(2), memory.find(2));
    assert_eq!(engine.all(), memory.all());
}

#[test]
fn a_second_label_of_a_name_is_a_duplicate() {
    let mut engine = Engine::new(&[]);
    let first = engine.create_label("urgent").unwrap();
    assert_eq!(first, Label::new(1, "urgent".to_string()));
    assert_eq!(engine.create_label("urgent"), Err(RepositoryError::Duplicate(1)));
    assert_eq!(
        engine.asked,
        vec![
            Statement::SelectLabelByName { name: "urgent".to_string() },
            Statement::InsertLabel { name: "urgent".to_string() },
            Statement::SelectLabelByName { name: "urgent".to_string() },
        ]
    );
}

#[test]
fn an_insert_of_a_label_that_gives_no_label_is_an_error() {
    let (work, _) = CreateLabelWork::start("n".to_string());
    let work = match work.step(Answer::Labels { labels: vec![] }) {
        Step::Ask(work, statement) => {
            assert_eq!(statement, Statement::InsertLabel { name: "n".to_string() });
            work
        }
        Step::Finish(_) => panic!("finished before the insert"),
    };
    match work.step(Answer::Labels { labels: vec![] }) {
        Step::Finish(outcome) => assert_eq!(
            outcome,
            Err(RepositoryError::Unexpected("the answer does not fit the statement".to_string()))
        ),
        Step::Ask(..) => panic!("asked after the insert"),
    }
}

#[test]
fn the_search_for_a_label_can_fail() {
    let (work, statement) = CreateLabelWork::start("n".to_string());
    assert_eq!(statement, Statement::SelectLabelByName { name: "n".to_string() });
    match work.step(failed("down")) {
        Step::Finish(outcome) => {
            assert_eq!(outcome, Err(RepositoryError::Unexpected("down".to_string())))
        }
        Step::Ask(..) => panic!("went on after a failure"),
    }
}

#[test]
fn a_removal_of_a_label_that_touched_no_row_is_not_found() {
    assert_eq!(label_deleted(4, Answer::Done { affected: 0 }), Err(RepositoryError::NotFound(4)));
    assert_eq!(label_deleted(4, Answer::Done { affected: 1 }), Ok(()));
    assert_eq!(
        label_deleted(4, failed("down")),
        Err(RepositoryError::Unexpected("down".to_string()))
    );
    assert_eq!(
        label_deleted(4, Answer::Failed { row_not_found: true, message: String::new() }),
        Err(RepositoryError::NotFound(4))
    );
}

#[test]
fn labels_are_listed_as_they_came() {
    let labels = vec![Label::new(1, "a".to_string()), Label::new(2, "b".to_string())];
    assert_eq!(labels_listed(Answer::Labels { labels: labels.clone() }), Ok(labels));
    assert_eq!(
        labels_listed(failed("down")),
        Err(RepositoryError::Unexpected("down".to_string()))
    );
}
