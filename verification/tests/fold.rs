use todo_repository::error::RepositoryError;
use todo_repository::label::Label;
use todo_repository::todo::{
    can_fold, find_in_rows, fold_entities, TodoEntity, TodoWithLabelFromRow,
};

fn row(id: i32, text: &str, label: Option<(i32, &str)>) -> TodoWithLabelFromRow {
    TodoWithLabelFromRow {
        id,
        text: text.to_string(),
        completed: false,
        label_id: label.map(|(id, _)| id),
        label_name: label.map(|(_, name)| name.to_string()),
    }
}

fn todo(id: i32, text: &str, labels: Vec<Label>) -> TodoEntity {
    TodoEntity { id, text: text.to_string(), completed: false, labels }
}

#[test]
fn fold_entities_test() {
    let label_1 = Label {
        id: 1,
        name: String::from("label 1"),
    };
    let label_2 = Label {
        id: 2,
        name: String::from("label 2"),
    };
    let rows = vec![
        TodoWithLabelFromRow {
            id: 1,
            text: String::from("todo 1"),
            completed: false,
            label_id: Some(label_1.id),
            label_name: Some(label_1.name.clone()),
        },
        TodoWithLabelFromRow {
            id: 1,
            text: String::from("todo 1"),
            completed: false,
            label_id: Some(label_2.id),
            label_name: Some(label_2.name.clone()),
        },
        TodoWithLabelFromRow {
            id: 2,
            text: String::from("todo 2"),
            completed: false,
            label_id: Some(label_1.id),
            label_name: Some(label_1.name.clone()),
        },
    ];
    let res = fold_entities(rows);
    assert_eq!(
        res,
        vec![
            TodoEntity {
                id: 1,
                text: String::from("todo 1"),
                completed: false,
                labels: vec![label_1.clone(), label_2],
            },
            TodoEntity {
                id: 2,
                text: String::from("todo 2"),
                completed: false,
                labels: vec![label_1],
            }
        ]
    );
}

#[test]
fn fold_groups_rows_by_first_seen_task() {
    let rows = vec![
        row(1, "a", Some((1, "L1"))),
        row(1, "a", Some((2, "L2"))),
        row(2, "b", Some((1, "L1"))),
    ];
    assert!(can_fold(&rows));
    assert_eq!(
        fold_entities(rows),
        vec![
            todo(1, "a", vec![Label::new(1, "L1".to_string()), Label::new(2, "L2".to_string())]),
            todo(2, "b", vec![Label::new(1, "L1".to_string())]),
        ]
    );
}

#[test]
fn fold_of_no_rows_is_empty() {
    assert!(can_fold(&vec![]));
    assert_eq!(fold_entities(vec![]), vec![]);
}

#[test]
fn fold_keeps_a_task_without_labels() {
    let rows = vec![row(7, "alone", None), row(3, "tagged", Some((9, "nine")))];
    assert!(can_fold(&rows));
    assert_eq!(
        fold_entities(rows),
        vec![
            todo(7, "alone", vec![]),
            todo(3, "tagged", vec![Label::new(9, "nine".to_string())]),
        ]
    );
}

#[test]
fn fold_does_not_sort_or_merge_labels() {
    let rows = vec![
        row(5, "five", Some((2, "two"))),
        row(4, "four", Some((1, "one"))),
        row(5, "five", Some((1, "one"))),
        row(5, "five", Some((2, "two"))),
    ];
    assert!(can_fold(&rows));
    assert_eq!(
        fold_entities(rows),
        vec![
            todo(
                5,
                "five",
                vec![
                    Label::new(2, "two".to_string()),
                    Label::new(1, "one".to_string()),
                    Label::new(2, "two".to_string()),
                ]
            ),
            todo(4, "four", vec![Label::new(1, "one".to_string())]),
        ]
    );
}

#[test]
fn fold_takes_text_and_state_from_the_first_row() {
    let mut first = row(1, "first text", Some((1, "one")));
    first.completed = true;
    let second = row(1, "second text", Some((2, "two")));
    let folded = fold_entities(vec![first, second]);
    assert_eq!(folded.len(), 1);
    assert_eq!(folded[0].text, "first text");
    assert!(folded[0].completed);
    assert_eq!(folded[0].labels.len(), 2);
}

#[test]
fn rows_that_continue_a_task_need_a_label() {
    assert!(!can_fold(&vec![row(1, "a", Some((1, "one"))), row(1, "a", None)]));
    assert!(!can_fold(&vec![row(1, "a", None), row(1, "a", None)]));
    let mut nameless = row(1, "a", Some((1, "one")));
    nameless.label_name = None;
    assert!(!can_fold(&vec![nameless]));
    let mut named_only = row(1, "a", None);
    named_only.label_name = Some("stray".to_string());
    assert!(can_fold(&vec![named_only]));
}

#[test]
fn a_stray_label_name_without_an_id_opens_a_task_without_labels() {
    let mut named_only = row(1, "a", None);
    named_only.label_name = Some("stray".to_string());
    assert_eq!(fold_entities(vec![named_only]), vec![todo(1, "a", vec![])]);
}

#[test]
fn find_in_rows_gives_the_first_task() {
    let rows = vec![row(4, "four", Some((1, "one"))), row(4, "four", Some((2, "two")))];
    assert_eq!(
        find_in_rows(4, rows),
        Ok(todo(
            4,
            "four",
            vec![Label::new(1, "one".to_string()), Label::new(2, "two".to_string())]
        ))
    );
}

#[test]
fn find_in_rows_finds_a_task_without_labels() {
    assert_eq!(find_in_rows(4, vec![row(4, "four", None)]), Ok(todo(4, "four", vec![])));
}

#[test]
fn find_in_no_rows_is_not_found() {
    assert_eq!(find_in_rows(4, vec![]), Err(RepositoryError::NotFound(4)));
}
