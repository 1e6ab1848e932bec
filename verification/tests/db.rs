use todoapp::model::{Priority, Todo};
use todoapp::store::TodoDb;

#[test]
fn test_todo_crud() {
    let temp_dir = tempfile::tempdir().unwrap();
    let mut db = TodoDb::new(temp_dir.path().to_str().unwrap()).unwrap();

    // Create
    let todo = Todo::new(
        "Test todo".to_string(),
        Some("Description".to_string()),
        None,
        Priority::High,
    );
    let id = todo.id;
    db.insert(&todo).unwrap();

    // Read
    let retrieved = db.get(id).unwrap().unwrap();
    assert_eq!(retrieved.title, "Test todo");
    assert_eq!(retrieved.priority, Priority::High);

    // Update
    let mut updated_todo = retrieved.clone();
    updated_todo.mark_completed();
    db.update(&updated_todo).unwrap();

    let retrieved_again = db.get(id).unwrap().unwrap();
    assert!(retrieved_again.completed);

    // Delete
    let deleted = db.delete(id).unwrap();
    assert!(deleted);
    assert!(db.get(id).unwrap().is_none());
}

#[test]
fn test_get_all() {
    let temp_dir = tempfile::tempdir().unwrap();
    let mut db = TodoDb::new(temp_dir.path().to_str().unwrap()).unwrap();

    let todo1 = Todo::new("Todo 1".to_string(), None, None, Priority::Low);
    let todo2 = Todo::new("Todo 2".to_string(), None, None, Priority::Medium);

    db.insert(&todo1).unwrap();
    db.insert(&todo2).unwrap();

    let all_todos = db.get_all().unwrap();
    assert_eq!(all_todos.len(), 2);
}

#[test]
fn test_insert_then_get_round_trip_every_field() {
    let temp_dir = tempfile::tempdir().unwrap();
    let mut db = TodoDb::new(temp_dir.path().to_str().unwrap()).unwrap();

    let todo = Todo::create(
        0xdead_beef_dead_beef_dead_beef_dead_beef,
        "Grüße ✓ title".to_string(),
        Some("ä description".to_string()),
        Some(-123_456),
        Priority::Medium,
        777,
    );
    db.insert(&todo).unwrap();
    let retrieved = db.get(todo.id).unwrap().unwrap();
    assert_eq!(retrieved, todo);
}

#[test]
fn test_upsert_overwrites_same_key() {
    let temp_dir = tempfile::tempdir().unwrap();
    let mut db = TodoDb::new(temp_dir.path().to_str().unwrap()).unwrap();

    let first = Todo::create(7, "first".to_string(), None, None, Priority::Low, 1);
    let second = Todo::create(7, "second".to_string(), None, None, Priority::High, 2);
    db.insert(&first).unwrap();
    db.insert(&second).unwrap();

    let retrieved = db.get(7).unwrap().unwrap();
    assert_eq!(retrieved.title, "second");
    assert_eq!(db.get_all().unwrap().len(), 1);
}

#[test]
fn test_delete_then_get_idempotent() {
    let temp_dir = tempfile::tempdir().unwrap();
    let mut db = TodoDb::new(temp_dir.path().to_str().unwrap()).unwrap();

    let todo = Todo::new("gone soon".to_string(), None, None, Priority::Low);
    let id = todo.id;
    db.insert(&todo).unwrap();

    assert!(db.delete(id).unwrap());
    assert!(db.get(id).unwrap().is_none());
    // a second delete reports that nothing existed, not an error
    assert!(!db.delete(id).unwrap());
    // deleting a never-seen identifier is not an error either
    assert!(!db.delete(0xffff).unwrap());
}

#[test]
fn test_get_all_newest_first() {
    let temp_dir = tempfile::tempdir().unwrap();
    let mut db = TodoDb::new(temp_dir.path().to_str().unwrap()).unwrap();

    let t1 = Todo::create(1, "oldest".to_string(), None, None, Priority::Low, 100);
    let t2 = Todo::create(2, "middle".to_string(), None, None, Priority::Low, 200);
    let t3 = Todo::create(3, "newest".to_string(), None, None, Priority::Low, 300);
    // inserted out of creation order on purpose
    db.insert(&t2).unwrap();
    db.insert(&t3).unwrap();
    db.insert(&t1).unwrap();

    let all = db.get_all().unwrap();
    assert_eq!(all.len(), 3);
    assert_eq!(all[0].title, "newest");
    assert_eq!(all[1].title, "middle");
    assert_eq!(all[2].title, "oldest");
}

#[test]
fn test_clear_all_empties_listing() {
    let temp_dir = tempfile::tempdir().unwrap();
    let mut db = TodoDb::new(temp_dir.path().to_str().unwrap()).unwrap();

    db.insert(&Todo::new("a".to_string(), None, None, Priority::Low)).unwrap();
    db.insert(&Todo::new("b".to_string(), None, None, Priority::High)).unwrap();
    assert_eq!(db.get_all().unwrap().len(), 2);

    db.clear_all().unwrap();
    assert_eq!(db.get_all().unwrap().len(), 0);

    // clearing an already empty store is fine too
    db.clear_all().unwrap();
    assert_eq!(db.get_all().unwrap().len(), 0);
}

#[test]
fn test_open_failure_reports_storage_error() {
    // a plain file where the database directory should be
    let file = tempfile::NamedTempFile::new().unwrap();
    let result = TodoDb::new(file.path().to_str().unwrap());
    match result {
        Ok(_) => panic!("opening a database over a plain file should fail"),
        Err(e) => assert_eq!(e.message, "Failed to open sled database"),
    }
}
