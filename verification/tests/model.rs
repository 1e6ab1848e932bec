use todoapp::model::{Priority, Todo};

#[test]
fn test_new_defaults() {
    let todo = Todo::new(
        "fresh".to_string(),
        Some("d".to_string()),
        Some(9),
        Priority::Medium,
    );
    assert_eq!(todo.title, "fresh");
    assert_eq!(todo.description.as_deref(), Some("d"));
    assert_eq!(todo.due_date, Some(9));
    assert_eq!(todo.priority, Priority::Medium);
    assert!(!todo.completed);
    assert_eq!(todo.created_at, todo.updated_at);
}

#[test]
fn test_partial_update_preserves_untouched_fields() {
    let mut todo = Todo::create(5, "A".to_string(), Some("B".to_string()), None, Priority::Low, 10);
    let before = todo.updated_at;
    todo.update_at(Some("C".to_string()), None, None, None, 20);
    assert_eq!(todo.title, "C");
    assert_eq!(todo.description.as_deref(), Some("B"));
    assert_eq!(todo.due_date, None);
    assert_eq!(todo.priority, Priority::Low);
    assert_eq!(todo.created_at, 10);
    assert!(todo.updated_at > before);
    assert_eq!(todo.updated_at, 20);
}

#[test]
fn test_update_distinguishes_clear_from_unchanged() {
    let mut todo = Todo::create(5, "t".to_string(), Some("B".to_string()), Some(7), Priority::Low, 10);
    // outer None leaves the field alone
    todo.update_at(None, None, None, None, 11);
    assert_eq!(todo.description.as_deref(), Some("B"));
    assert_eq!(todo.due_date, Some(7));
    assert_eq!(todo.updated_at, 11);
    // Some(None) explicitly clears it
    todo.update_at(None, Some(None), Some(None), None, 12);
    assert_eq!(todo.description, None);
    assert_eq!(todo.due_date, None);
    assert_eq!(todo.updated_at, 12);
    // an update that changes nothing still refreshes the update time
    todo.update_at(None, None, None, None, 13);
    assert_eq!(todo.updated_at, 13);
}

#[test]
fn test_completion_toggling_always_refreshes() {
    let mut todo = Todo::create(5, "t".to_string(), None, None, Priority::Low, 10);
    todo.set_completed_at(true, 20);
    assert!(todo.completed);
    assert_eq!(todo.updated_at, 20);
    // a second identical call still advances the update time
    todo.set_completed_at(true, 30);
    assert!(todo.completed);
    assert_eq!(todo.updated_at, 30);
    todo.set_completed_at(false, 40);
    assert!(!todo.completed);
    assert_eq!(todo.updated_at, 40);
}

#[test]
fn test_clock_based_mutations_keep_invariant() {
    let mut todo = Todo::new("t".to_string(), None, None, Priority::High);
    todo.mark_completed();
    assert!(todo.completed);
    assert!(todo.updated_at >= todo.created_at);
    todo.mark_incomplete();
    assert!(!todo.completed);
    assert!(todo.updated_at >= todo.created_at);
    todo.update(Some("u".to_string()), None, None, Some(Priority::Low));
    assert_eq!(todo.title, "u");
    assert_eq!(todo.priority, Priority::Low);
    assert!(todo.updated_at >= todo.created_at);
}
