use todo_repository::error::RepositoryError;
use todo_repository::label::{Label, LabelRepository, UpdateLabel};
use todo_repository::label_memory::LabelRepositoryForMemory;
use todo_repository::todo::{CreateTodo, TodoEntity, TodoRepository, UpdateTodo};
use todo_repository::todo_memory::{can_attach, TodoRepositoryForMemory};

fn three_labels() -> Vec<Label> {
    vec![
        Label::new(1, "home".to_string()),
        Label::new(2, "work".to_string()),
        Label::new(5, "later".to_string()),
    ]
}

fn unexpected(message: &str) -> RepositoryError {
    RepositoryError::Unexpected(message.to_string())
}

#[test]
fn todo_crud_scenario() {
    let text = "todo text".to_string();
    let id = 1;
    let labels = vec![];
    let expected = TodoEntity::new(id, text.clone());

    // create
    let mut repository = TodoRepositoryForMemory::new();
    let todo = repository
        .create(CreateTodo { text, labels })
        .expect("failed create todo");
    assert_eq!(expected, todo);

    // find
    let todo = repository.find(todo.id).unwrap();
    assert_eq!(expected, todo);

    // all
    let todos = repository.all().expect("failed get all todo");
    assert_eq!(vec![expected], todos);

    // update
    let text = "update todo text".to_string();
    let todo = repository
        .update(
            1,
            UpdateTodo {
                text: Some(text.clone()),
                completed: Some(true),
                labels: Some(vec![]),
            },
        )
        .expect("failed update todo.");
    assert_eq!(
        TodoEntity {
            id,
            text,
            completed: true,
            labels: vec![],
        },
        todo
    );

    // delete
    let res = repository.delete(id);
    assert!(res.is_ok());
}

#[test]
fn label_crud_scenario() {
    let name = "label name".to_string();
    let id = 1;
    let expected = Label::new(id, name.clone());

    // create
    let mut repository = LabelRepositoryForMemory::new();
    let label = repository
        .create(name.clone())
        .expect("failed create label");
    assert_eq!(expected, label);

    // all
    let labels = repository.all().expect("failed get all labels");
    assert_eq!(vec![expected], labels);

    // delete
    let res = repository.delete(id);
    assert!(res.is_ok());
}

#[test]
fn a_task_made_without_labels_is_found_open_and_bare() {
    let mut store = TodoRepositoryForMemory::with_labels(three_labels());
    let made = store.create(CreateTodo::new("plain".to_string(), vec![])).unwrap();
    let found = store.find(made.id).unwrap();
    assert_eq!(found, made);
    assert_eq!(found.labels, vec![]);
    assert!(!found.completed);
    assert_eq!(found.id, 1);
    assert_eq!(found.text, "plain");
}

#[test]
fn a_task_made_with_labels_carries_one_label_for_each_id_in_order() {
    let mut store = TodoRepositoryForMemory::with_labels(three_labels());
    let made = store.create(CreateTodo::new("tagged".to_string(), vec![5, 1])).unwrap();
    assert_eq!(
        made,
        TodoEntity {
            id: 1,
            text: "tagged".to_string(),
            completed: false,
            labels: vec![Label::new(5, "later".to_string()), Label::new(1, "home".to_string())],
        }
    );
    let once = store.find(1).unwrap();
    let twice = store.find(1).unwrap();
    assert_eq!(once, made);
    assert_eq!(once, twice);
}

#[test]
fn all_gives_every_task_by_descending_id() {
    let mut store = TodoRepositoryForMemory::with_labels(three_labels());
    store.create(CreateTodo::new("one".to_string(), vec![1, 2])).unwrap();
    store.create(CreateTodo::new("two".to_string(), vec![])).unwrap();
    store.create(CreateTodo::new("three".to_string(), vec![2])).unwrap();
    let all = store.all().unwrap();
    assert_eq!(
        all,
        vec![
            TodoEntity {
                id: 3,
                text: "three".to_string(),
                completed: false,
                labels: vec![Label::new(2, "work".to_string())],
            },
            TodoEntity::new(2, "two".to_string()),
            TodoEntity {
                id: 1,
                text: "one".to_string(),
                completed: false,
                labels: vec![Label::new(1, "home".to_string()), Label::new(2, "work".to_string())],
            },
        ]
    );
}

#[test]
fn all_of_an_empty_store_is_empty() {
    let store = TodoRepositoryForMemory::new();
    assert_eq!(store.all().unwrap(), vec![]);
}

#[test]
fn update_with_an_empty_list_clears_the_labels() {
    let mut store = TodoRepositoryForMemory::with_labels(three_labels());
    store.create(CreateTodo::new("tagged".to_string(), vec![1, 2])).unwrap();
    let changed = store
        .update(1, UpdateTodo { text: None, completed: None, labels: Some(vec![]) })
        .unwrap();
    assert_eq!(changed.labels, vec![]);
    assert_eq!(changed.text, "tagged");
    assert!(!changed.completed);
    assert_eq!(store.find(1).unwrap().labels, vec![]);
}

#[test]
fn update_without_labels_keeps_the_labels() {
    let mut store = TodoRepositoryForMemory::with_labels(three_labels());
    let made = store.create(CreateTodo::new("tagged".to_string(), vec![2, 5])).unwrap();
    let changed = store
        .update(
            1,
            UpdateTodo { text: Some("renamed".to_string()), completed: Some(true), labels: None },
        )
        .unwrap();
    assert_eq!(changed.labels, made.labels);
    assert_eq!(changed.text, "renamed");
    assert!(changed.completed);
    assert_eq!(store.find(1).unwrap(), changed);
}

#[test]
fn update_replaces_all_the_labels() {
    let mut store = TodoRepositoryForMemory::with_labels(three_labels());
    store.create(CreateTodo::new("tagged".to_string(), vec![1, 2])).unwrap();
    let changed = store
        .update(1, UpdateTodo { text: None, completed: None, labels: Some(vec![5]) })
        .unwrap();
    assert_eq!(changed.labels, vec![Label::new(5, "later".to_string())]);
}

#[test]
fn update_of_one_task_leaves_the_others() {
    let mut store = TodoRepositoryForMemory::with_labels(three_labels());
    let first = store.create(CreateTodo::new("first".to_string(), vec![1])).unwrap();
    store.create(CreateTodo::new("second".to_string(), vec![2])).unwrap();
    store
        .update(2, UpdateTodo { text: Some("changed".to_string()), completed: None, labels: None })
        .unwrap();
    assert_eq!(store.find(1).unwrap(), first);
    assert_eq!(store.find(2).unwrap().text, "changed");
}

#[test]
fn update_of_a_missing_task_is_not_found() {
    let mut store = TodoRepositoryForMemory::new();
    let outcome = store.update(9, UpdateTodo { text: None, completed: None, labels: None });
    assert_eq!(outcome, Err(RepositoryError::NotFound(9)));
}

#[test]
fn a_failed_update_changes_nothing() {
    let mut store = TodoRepositoryForMemory::with_labels(three_labels());
    let made = store.create(CreateTodo::new("tagged".to_string(), vec![1])).unwrap();
    let outcome = store.update(
        1,
        UpdateTodo { text: Some("lost".to_string()), completed: Some(true), labels: Some(vec![4]) },
    );
    assert_eq!(outcome, Err(unexpected("a label id is unknown or repeated")));
    assert_eq!(store.find(1).unwrap(), made);
}

#[test]
fn delete_then_find_is_not_found() {
    let mut store = TodoRepositoryForMemory::with_labels(three_labels());
    store.create(CreateTodo::new("gone".to_string(), vec![1])).unwrap();
    assert_eq!(store.delete(1), Ok(()));
    assert_eq!(store.find(1), Err(RepositoryError::NotFound(1)));
    assert_eq!(store.all().unwrap(), vec![]);
}

#[test]
fn delete_of_a_missing_task_is_not_found() {
    let mut store = TodoRepositoryForMemory::new();
    assert_eq!(store.delete(3), Err(RepositoryError::NotFound(3)));
    store.create(CreateTodo::new("kept".to_string(), vec![])).unwrap();
    assert_eq!(store.delete(3), Err(RepositoryError::NotFound(3)));
    assert_eq!(store.all().unwrap().len(), 1);
}

#[test]
fn find_of_a_missing_task_is_not_found() {
    let store = TodoRepositoryForMemory::new();
    assert_eq!(store.find(1), Err(RepositoryError::NotFound(1)));
}

#[test]
fn ids_are_not_given_twice_even_after_a_delete() {
    let mut store = TodoRepositoryForMemory::new();
    let a = store.create(CreateTodo::new("a".to_string(), vec![])).unwrap();
    let b = store.create(CreateTodo::new("b".to_string(), vec![])).unwrap();
    store.delete(a.id).unwrap();
    let c = store.create(CreateTodo::new("c".to_string(), vec![])).unwrap();
    assert_eq!((a.id, b.id, c.id), (1, 2, 3));
    assert_eq!(store.find(2).unwrap().text, "b");
    assert_eq!(store.find(3).unwrap().text, "c");
}

#[test]
fn create_rejects_an_unknown_label_and_leaves_no_task() {
    let mut store = TodoRepositoryForMemory::with_labels(three_labels());
    let outcome = store.create(CreateTodo::new("bad".to_string(), vec![1, 3]));
    assert_eq!(outcome, Err(unexpected("a label id is unknown or repeated")));
    assert_eq!(store.all().unwrap(), vec![]);
    let next = store.create(CreateTodo::new("good".to_string(), vec![1])).unwrap();
    assert_eq!(next.id, 1);
}

#[test]
fn create_rejects_a_repeated_label() {
    let mut store = TodoRepositoryForMemory::with_labels(three_labels());
    let outcome = store.create(CreateTodo::new("bad".to_string(), vec![2, 1, 2]));
    assert_eq!(outcome, Err(unexpected("a label id is unknown or repeated")));
    assert_eq!(store.all().unwrap(), vec![]);
}

#[test]
fn a_store_without_labels_attaches_none() {
    let mut store = TodoRepositoryForMemory::new();
    let outcome = store.create(CreateTodo::new("bad".to_string(), vec![1]));
    assert_eq!(outcome, Err(unexpected("a label id is unknown or repeated")));
}

#[test]
fn the_first_label_of_an_id_is_the_one_attached() {
    let labels = vec![Label::new(1, "first".to_string()), Label::new(1, "second".to_string())];
    let mut store = TodoRepositoryForMemory::with_labels(labels);
    let made = store.create(CreateTodo::new("t".to_string(), vec![1])).unwrap();
    assert_eq!(made.labels, vec![Label::new(1, "first".to_string())]);
}

#[test]
fn can_attach_wants_known_ids_once_each() {
    let labels = three_labels();
    assert!(can_attach(&labels, &vec![]));
    assert!(can_attach(&labels, &vec![5, 2, 1]));
    assert!(!can_attach(&labels, &vec![5, 5]));
    assert!(!can_attach(&labels, &vec![3]));
    assert!(!can_attach(&vec![], &vec![1]));
}

#[test]
fn create_label_twice_gives_the_same_label() {
    let mut store = LabelRepositoryForMemory::new();
    let first = store.create("urgent".to_string()).unwrap();
    let second = store.create("urgent".to_string()).unwrap();
    assert_eq!(first, Label::new(1, "urgent".to_string()));
    assert_eq!(second, first);
    assert_eq!(store.all().unwrap(), vec![first]);
}

#[test]
fn labels_come_by_ascending_id() {
    let mut store = LabelRepositoryForMemory::new();
    store.create("c".to_string()).unwrap();
    store.create("a".to_string()).unwrap();
    store.create("b".to_string()).unwrap();
    assert_eq!(
        store.all().unwrap(),
        vec![
            Label::new(1, "c".to_string()),
            Label::new(2, "a".to_string()),
            Label::new(3, "b".to_string()),
        ]
    );
}

#[test]
fn delete_label_removes_only_that_label() {
    let mut store = LabelRepositoryForMemory::new();
    store.create("a".to_string()).unwrap();
    store.create("b".to_string()).unwrap();
    store.create("c".to_string()).unwrap();
    assert_eq!(store.delete(2), Ok(()));
    assert_eq!(
        store.all().unwrap(),
        vec![Label::new(1, "a".to_string()), Label::new(3, "c".to_string())]
    );
    assert_eq!(store.delete(2), Err(RepositoryError::NotFound(2)));
}

#[test]
fn delete_of_a_missing_label_is_not_found() {
    let mut store = LabelRepositoryForMemory::new();
    assert_eq!(store.delete(1), Err(RepositoryError::NotFound(1)));
}

#[test]
fn label_ids_are_not_given_twice_even_after_a_delete() {
    let mut store = LabelRepositoryForMemory::new();
    store.create("a".to_string()).unwrap();
    store.create("b".to_string()).unwrap();
    store.delete(1).unwrap();
    let c = store.create("c".to_string()).unwrap();
    assert_eq!(c.id, 3);
    let again = store.create("a".to_string()).unwrap();
    assert_eq!(again, Label::new(4, "a".to_string()));
}

#[test]
fn deleting_a_label_does_not_touch_the_tasks_that_carry_it() {
    let mut labels = LabelRepositoryForMemory::new();
    let home = labels.create("home".to_string()).unwrap();
    let mut todos = TodoRepositoryForMemory::with_labels(labels.all().unwrap());
    let made = todos.create(CreateTodo::new("t".to_string(), vec![home.id])).unwrap();
    labels.delete(home.id).unwrap();
    assert_eq!(todos.find(made.id).unwrap().labels, vec![home]);
}

#[test]
fn a_copy_equals_what_it_copies() {
    let label = Label::new(3, "three".to_string());
    assert_eq!(label.clone(), label);
    let change = UpdateLabel { id: 3, name: "new".to_string() };
    assert_eq!(change.clone(), change);
    let todo = TodoEntity {
        id: 1,
        text: "t".to_string(),
        completed: true,
        labels: vec![label.clone()],
    };
    assert_eq!(todo.clone(), todo);
    let payload = CreateTodo::new("t".to_string(), vec![1, 2]);
    assert_eq!(payload.clone(), payload);
    let update = UpdateTodo { text: Some("u".to_string()), completed: None, labels: Some(vec![4]) };
    assert_eq!(update.clone(), update);
    let error = RepositoryError::Unexpected("broken".to_string());
    assert_eq!(error.clone(), error);
}
