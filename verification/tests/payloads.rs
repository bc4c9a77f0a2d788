use todo_repository::error::RepositoryError;
use todo_repository::todo::{is_valid_text, CreateTodo, UpdateTodo};

#[test]
fn a_text_has_between_one_and_a_hundred_characters() {
    assert!(!is_valid_text(""));
    assert!(is_valid_text("a"));
    assert!(is_valid_text(&"a".repeat(100)));
    assert!(!is_valid_text(&"a".repeat(101)));
}

#[test]
fn characters_are_counted_not_bytes() {
    let wide = "\u{3042}".repeat(100);
    assert_eq!(wide.len(), 300);
    assert!(is_valid_text(&wide));
    assert!(!is_valid_text(&"\u{3042}".repeat(101)));
}

#[test]
fn payloads_check_their_text() {
    assert!(CreateTodo::new("buy milk".to_string(), vec![]).is_valid());
    assert!(!CreateTodo::new(String::new(), vec![1]).is_valid());
    assert!(UpdateTodo { text: None, completed: Some(true), labels: None }.is_valid());
    assert!(UpdateTodo { text: Some("x".to_string()), completed: None, labels: None }.is_valid());
    assert!(!UpdateTodo { text: Some(String::new()), completed: None, labels: None }.is_valid());
    assert!(!UpdateTodo { text: Some("y".repeat(101)), completed: None, labels: None }.is_valid());
}

#[test]
fn storage_failures_are_classified() {
    assert_eq!(
        RepositoryError::from_storage(7, true, "no rows".to_string()),
        RepositoryError::NotFound(7)
    );
    assert_eq!(
        RepositoryError::from_storage(7, false, "connection lost".to_string()),
        RepositoryError::Unexpected("connection lost".to_string())
    );
}
