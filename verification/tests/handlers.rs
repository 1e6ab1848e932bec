use todoapp::handlers::{
    create_todo, delete_todo, get_todo, list_todos, model_priority_to_transfer, priority_to_model,
    update_todo, AppError,
};
use todoapp::model::Priority as ModelPriority;
use todoapp::store::TodoDb;
use todoapp::transfer::{CreateTodoRequest, ErrorResponse, Priority, UpdateTodoRequest};

fn open_db() -> (tempfile::TempDir, TodoDb) {
    let dir = tempfile::tempdir().unwrap();
    let db = TodoDb::new(dir.path().to_str().unwrap()).unwrap();
    (dir, db)
}

fn no_change() -> UpdateTodoRequest {
    UpdateTodoRequest {
        title: None,
        description: None,
        due_date: None,
        priority: None,
        completed: None,
    }
}

#[test]
fn test_priority_mapping_is_a_bijection() {
    for p in [Priority::Low, Priority::Medium, Priority::High] {
        assert_eq!(model_priority_to_transfer(priority_to_model(p)), p);
    }
    for p in [ModelPriority::Low, ModelPriority::Medium, ModelPriority::High] {
        assert_eq!(priority_to_model(model_priority_to_transfer(p)), p);
    }
    assert_eq!(priority_to_model(Priority::Medium), ModelPriority::Medium);
}

#[test]
fn test_error_response_new() {
    let e = ErrorResponse::new("boom".to_string());
    assert_eq!(e.error, "boom");
}

#[test]
fn test_end_to_end_scenario() {
    let (_dir, mut db) = open_db();

    // POST /todos {"title":"Buy milk","priority":"Medium"} -> 201
    let created = create_todo(
        &mut db,
        CreateTodoRequest {
            title: "Buy milk".to_string(),
            description: None,
            due_date: None,
            priority: Priority::Medium,
        },
    )
    .unwrap();
    assert_eq!(created.title, "Buy milk");
    assert_eq!(created.priority, Priority::Medium);
    assert!(!created.completed);
    assert_eq!(created.created_at, created.updated_at);

    // GET /todos/{id} -> 200, the same object
    let got = get_todo(&db, created.id).unwrap();
    assert_eq!(got, created);

    // PUT /todos/{id} {"completed":true} -> 200
    let mut req = no_change();
    req.completed = Some(true);
    let updated = update_todo(&mut db, created.id, req).unwrap();
    assert!(updated.completed);
    assert!(updated.updated_at > updated.created_at);
    assert_eq!(updated.title, "Buy milk");

    // DELETE /todos/{id} -> 204
    delete_todo(&mut db, created.id).unwrap();

    // GET /todos/{id} -> 404 {"error":"..."}
    let err = get_todo(&db, created.id).unwrap_err();
    let expected = format!(
        "Todo with id {} not found",
        uuid::Uuid::from_u128(created.id).as_hyphenated()
    );
    match err {
        AppError::NotFound(msg) => assert_eq!(msg, expected),
        AppError::DatabaseError(_) => panic!("expected a not-found error"),
    }
}

#[test]
fn test_list_todos_newest_first() {
    let (_dir, mut db) = open_db();
    let a = create_todo(
        &mut db,
        CreateTodoRequest {
            title: "a".to_string(),
            description: None,
            due_date: None,
            priority: Priority::Low,
        },
    )
    .unwrap();
    let b = create_todo(
        &mut db,
        CreateTodoRequest {
            title: "b".to_string(),
            description: None,
            due_date: None,
            priority: Priority::High,
        },
    )
    .unwrap();
    let listed = list_todos(&db).unwrap();
    assert_eq!(listed.len(), 2);
    for pair in listed.windows(2) {
        assert!(pair[0].created_at >= pair[1].created_at);
    }
    assert!(listed.contains(&a));
    assert!(listed.contains(&b));
}

#[test]
fn test_update_partial_fields_and_not_found() {
    let (_dir, mut db) = open_db();
    let created = create_todo(
        &mut db,
        CreateTodoRequest {
            title: "A".to_string(),
            description: Some("B".to_string()),
            due_date: None,
            priority: Priority::Low,
        },
    )
    .unwrap();

    let mut req = no_change();
    req.title = Some("C".to_string());
    let updated = update_todo(&mut db, created.id, req).unwrap();
    assert_eq!(updated.title, "C");
    assert_eq!(updated.description.as_deref(), Some("B"));
    assert_eq!(updated.priority, Priority::Low);
    assert!(updated.updated_at >= created.updated_at);

    // clearing the description is distinct from leaving it alone
    let mut req2 = no_change();
    req2.description = Some(None);
    let cleared = update_todo(&mut db, created.id, req2).unwrap();
    assert_eq!(cleared.description, None);

    // updating an absent identifier is a not-found error
    let missing = update_todo(&mut db, 0xabcdef, no_change()).unwrap_err();
    assert!(matches!(missing, AppError::NotFound(_)));
}

#[test]
fn test_delete_not_found_and_status_codes() {
    let (_dir, mut db) = open_db();
    let err = delete_todo(&mut db, 42).unwrap_err();
    let (status, body) = err.into_response();
    assert_eq!(status, 404);
    assert_eq!(
        body.error,
        format!(
            "Todo with id {} not found",
            uuid::Uuid::from_u128(42).as_hyphenated()
        )
    );

    let db_err = AppError::DatabaseError(todoapp::store::StoreError {
        message: "Failed to get todo".to_string(),
    });
    let (status2, body2) = db_err.into_response();
    assert_eq!(status2, 500);
    assert_eq!(body2.error, "Failed to get todo");
}
