//! Request handlers: the five REST operations over the record store, each
//! an independent atomic store operation or read, plus the mapping of
//! handler failures to status codes and error bodies.

use vstd::prelude::*;
use vstd::string::StringExecFns;

use crate::model::{Priority as ModelPriority, Todo, TodoView};
use crate::store::{
    listing_complete, listing_covered, sorted_desc, spec_key, views_of, StoreError, TodoDb,
};
use crate::codec::{spec_decode, spec_encode};
use crate::transfer::{
    CreateTodoRequest, ErrorResponse, Priority, TodoResponse, UpdateTodoRequest,
};

verus! {

/// The model value of a wire priority.
pub open spec fn spec_priority_to_model(p: Priority) -> ModelPriority {
    match p {
        Priority::Low => ModelPriority::Low,
        Priority::Medium => ModelPriority::Medium,
        Priority::High => ModelPriority::High,
    }
}

/// The wire value of a model priority.
pub open spec fn spec_priority_to_transfer(p: ModelPriority) -> Priority {
    match p {
        ModelPriority::Low => Priority::Low,
        ModelPriority::Medium => Priority::Medium,
        ModelPriority::High => Priority::High,
    }
}

/// Maps a wire priority to its model value.
pub fn priority_to_model(priority: Priority) -> (r: ModelPriority)
    ensures
        r == spec_priority_to_model(priority),
{
    match priority {
        Priority::Low => ModelPriority::Low,
        Priority::Medium => ModelPriority::Medium,
        Priority::High => ModelPriority::High,
    }
}

/// Maps a model priority to its wire value.
pub fn model_priority_to_transfer(priority: ModelPriority) -> (r: Priority)
    ensures
        r == spec_priority_to_transfer(priority),
{
    match priority {
        ModelPriority::Low => Priority::Low,
        ModelPriority::Medium => Priority::Medium,
        ModelPriority::High => Priority::High,
    }
}

/// Whether a response is the exact wire snapshot of a todo value.
pub open spec fn response_matches(resp: TodoResponse, t: TodoView) -> bool {
    &&& resp.id == t.id
    &&& resp.title@ == t.title
    &&& resp.description.deep_view() == t.description
    &&& resp.due_date == t.due_date
    &&& resp.priority == spec_priority_to_transfer(t.priority)
    &&& resp.completed == t.completed
    &&& resp.created_at == t.created_at
    &&& resp.updated_at == t.updated_at
}

/// The todo value a wire snapshot stands for.
pub open spec fn response_view(resp: TodoResponse) -> TodoView {
    TodoView {
        id: resp.id,
        title: resp.title@,
        description: resp.description.deep_view(),
        due_date: resp.due_date,
        priority: spec_priority_to_model(resp.priority),
        completed: resp.completed,
        created_at: resp.created_at,
        updated_at: resp.updated_at,
    }
}

/// The wire mapping is a lossless bijection: a response is the snapshot of
/// a todo value exactly when mapping the response back gives that value.
pub proof fn lemma_response_mapping_bijective(resp: TodoResponse, t: TodoView)
    ensures
        response_matches(resp, t) <==> response_view(resp) == t,
{
}

/// The todo values a sequence of responses stands for.
pub open spec fn response_views(s: Seq<TodoResponse>) -> Seq<TodoView> {
    s.map_values(|r: TodoResponse| response_view(r))
}

/// Maps a todo to its full wire snapshot.
pub fn todo_to_response(todo: Todo) -> (r: TodoResponse)
    ensures
        response_matches(r, todo@),
        response_view(r) == todo@,
{
    let r = TodoResponse {
        id: todo.id,
        title: todo.title,
        description: todo.description,
        due_date: todo.due_date,
        priority: model_priority_to_transfer(todo.priority),
        completed: todo.completed,
        created_at: todo.created_at,
        updated_at: todo.updated_at,
    };
    proof {
        lemma_response_mapping_bijective(r, todo@);
    }
    r
}

/// Errors a handler can answer with: a storage failure or a missing
/// record; nothing else is classified.
#[derive(Debug, Clone, PartialEq)]
pub enum AppError {
    DatabaseError(StoreError),
    NotFound(String),
}

impl AppError {
    /// The status code and error body a handler failure is answered with:
    /// 404 for a missing record, 500 for a storage failure.
    pub fn into_response(self) -> (r: (u16, ErrorResponse))
        ensures
            match self {
                AppError::DatabaseError(e) => r.0 == 500 && r.1.error == e.message,
                AppError::NotFound(m) => r.0 == 404 && r.1.error == m,
            },
    {
        match self {
            AppError::DatabaseError(e) => (500, ErrorResponse::new(e.message)),
            AppError::NotFound(m) => (404, ErrorResponse::new(m)),
        }
    }
}

/// The canonical hyphenated text of an identifier; a function of the
/// identifier alone.
pub uninterp spec fn uuid_text(id: u128) -> Seq<char>;

/// Relies on uuid's hyphenated `Display`: the canonical text of an
/// identifier, determined by its 128 bits alone.
#[verifier::external_body]
fn id_to_string(id: u128) -> (r: String)
    ensures
        r@ == uuid_text(id),
{
    uuid::Uuid::from_u128(id).as_hyphenated().to_string()
}

/// The message a missing identifier is reported with.
pub open spec fn not_found_message(id: u128) -> Seq<char> {
    "Todo with id "@ + uuid_text(id) + " not found"@
}

/// Builds the not-found error for an identifier.
fn not_found_error(id: u128) -> (r: AppError)
    ensures
        r matches AppError::NotFound(m) && m@ == not_found_message(id),
{
    let mut m = String::from_str("Todo with id ");
    let ids = id_to_string(id);
    m.append(ids.as_str());
    m.append(" not found");
    AppError::NotFound(m)
}

/// Whether a map entry decodes to exactly this todo value.
pub open spec fn decodes_to(m: Map<Seq<u8>, Seq<u8>>, k: Seq<u8>, t: TodoView) -> bool {
    m.contains_key(k) && spec_decode(m[k]) == Some(t)
}

/// Lists every todo, newest first by creation time.
pub fn list_todos(db: &TodoDb) -> (r: Result<Vec<TodoResponse>, AppError>)
    ensures
        r matches Ok(rs) ==> {
            &&& rs@.len() == db@.dom().len()
            &&& sorted_desc(response_views(rs@))
            &&& listing_covered(db@, response_views(rs@))
            &&& listing_complete(db@, response_views(rs@))
        },
        r matches Err(e) ==> e matches AppError::DatabaseError(se) && (se.message@
            == "Failed to iterate over todos"@ || se.message@ == "Failed to deserialize todo"@),
{
    let mut todos = match db.get_all() {
        Err(e) => {
            return Err(AppError::DatabaseError(e));
        },
        Ok(ts) => ts,
    };
    let ghost tvs = views_of(todos@);
    let mut responses: Vec<TodoResponse> = Vec::new();
    while todos.len() > 0
        invariant
            response_views(responses@) + views_of(todos@) =~= tvs,
        decreases todos@.len(),
    {
        let ghost todos0 = todos@;
        let t = todos.remove(0);
        proof {
            assert(views_of(todos0) =~= seq![t@] + views_of(todos@));
        }
        responses.push(todo_to_response(t));
        proof {
            assert(response_views(responses@) + views_of(todos@) =~= tvs);
        }
    }
    proof {
        assert(response_views(responses@) =~= tvs);
    }
    Ok(responses)
}

/// Creates a todo from a create request and stores it durably: completed
/// is false and both timestamps are equal.
pub fn create_todo(db: &mut TodoDb, req: CreateTodoRequest) -> (r: Result<TodoResponse, AppError>)
    ensures
        r matches Ok(resp) ==> {
            &&& resp.title@ == req.title@
            &&& resp.description.deep_view() == req.description.deep_view()
            &&& resp.due_date == req.due_date
            &&& resp.priority == req.priority
            &&& resp.completed == false
            &&& resp.created_at == resp.updated_at
            &&& final(db)@ == old(db)@.insert(spec_key(resp.id), spec_encode(response_view(resp)))
        },
        r matches Err(e) ==> e matches AppError::DatabaseError(se) && (se.message@
            == "Failed to insert todo"@ || se.message@ == "Failed to flush database"@),
{
    let todo = Todo::new(req.title, req.description, req.due_date, priority_to_model(req.priority));
    match db.insert(&todo) {
        Err(e) => Err(AppError::DatabaseError(e)),
        Ok(_) => {
            let resp = todo_to_response(todo);
            Ok(resp)
        },
    }
}

/// Fetches one todo by identifier; a missing identifier is answered with
/// the not-found error, never a storage failure.
pub fn get_todo(db: &TodoDb, id: u128) -> (r: Result<TodoResponse, AppError>)
    ensures
        r matches Ok(resp) ==> decodes_to(db@, spec_key(id), response_view(resp)),
        r matches Err(e) ==> match e {
            AppError::NotFound(m) => !db@.contains_key(spec_key(id)) && m@ == not_found_message(
                id,
            ),
            AppError::DatabaseError(se) => se.message@ == "Failed to get todo"@ || se.message@
                == "Failed to deserialize todo"@,
        },
{
    match db.get(id) {
        Err(e) => Err(AppError::DatabaseError(e)),
        Ok(None) => Err(not_found_error(id)),
        Ok(Some(todo)) => Ok(todo_to_response(todo)),
    }
}

/// Whether `resp` is the snapshot of `t0` after a partial update: present
/// request fields replace fields, absent ones leave them alone, the
/// creation time is kept, and the update time is refreshed.
pub open spec fn updated_from(t0: TodoView, req: UpdateTodoRequest, resp: TodoResponse) -> bool {
    &&& resp.id == t0.id
    &&& resp.title@ == match req.title {
        Some(s) => s@,
        None => t0.title,
    }
    &&& resp.description.deep_view() == match req.description {
        Some(d) => d.deep_view(),
        None => t0.description,
    }
    &&& resp.due_date == match req.due_date {
        Some(d) => d,
        None => t0.due_date,
    }
    &&& resp.priority == match req.priority {
        Some(p) => p,
        None => spec_priority_to_transfer(t0.priority),
    }
    &&& resp.completed == match req.completed {
        Some(c) => c,
        None => t0.completed,
    }
    &&& resp.created_at == t0.created_at
    &&& resp.updated_at >= t0.created_at
}

/// Updates one todo by identifier: applies the partial update, stores the
/// result durably, and answers with the updated snapshot. A missing
/// identifier is answered with the not-found error and leaves the store
/// unchanged.
pub fn update_todo(db: &mut TodoDb, id: u128, req: UpdateTodoRequest) -> (r: Result<
    TodoResponse,
    AppError,
>)
    ensures
        r matches Ok(resp) ==> (exists|t0: TodoView|
            #[trigger] decodes_to(old(db)@, spec_key(id), t0) && updated_from(t0, req, resp))
            && final(db)@ == old(db)@.insert(spec_key(resp.id), spec_encode(response_view(resp))),
        r matches Err(e) ==> match e {
            AppError::NotFound(m) => !old(db)@.contains_key(spec_key(id)) && final(db)@ == old(
                db,
            )@ && m@ == not_found_message(id),
            AppError::DatabaseError(se) => se.message@ == "Failed to get todo"@ || se.message@
                == "Failed to deserialize todo"@ || se.message@ == "Failed to update todo"@
                || se.message@ == "Failed to flush database"@,
        },
{
    let mut todo = match db.get(id) {
        Err(e) => {
            return Err(AppError::DatabaseError(e));
        },
        Ok(None) => {
            return Err(not_found_error(id));
        },
        Ok(Some(t)) => t,
    };
    let ghost t0 = todo@;

    let priority = match req.priority {
        Some(p) => Some(priority_to_model(p)),
        None => None,
    };
    todo.update(req.title, req.description, req.due_date, priority);

    if let Some(completed) = req.completed {
        if completed {
            todo.mark_completed();
        } else {
            todo.mark_incomplete();
        }
    }

    match db.update(&todo) {
        Err(e) => Err(AppError::DatabaseError(e)),
        Ok(_) => {
            let resp = todo_to_response(todo);
            proof {
                assert(decodes_to(old(db)@, spec_key(id), t0));
                assert(updated_from(t0, req, resp));
            }
            Ok(resp)
        },
    }
}

/// Deletes one todo by identifier, durable before returning; a missing
/// identifier is answered with the not-found error and leaves the store
/// unchanged.
pub fn delete_todo(db: &mut TodoDb, id: u128) -> (r: Result<(), AppError>)
    ensures
        r is Ok ==> old(db)@.contains_key(spec_key(id)) && final(db)@ == old(db)@.remove(
            spec_key(id),
        ),
        r matches Err(e) ==> match e {
            AppError::NotFound(m) => !old(db)@.contains_key(spec_key(id)) && final(db)@ == old(
                db,
            )@ && m@ == not_found_message(id),
            AppError::DatabaseError(se) => se.message@ == "Failed to delete todo"@ || se.message@
                == "Failed to flush database"@,
        },
{
    match db.delete(id) {
        Err(e) => Err(AppError::DatabaseError(e)),
        Ok(true) => Ok(()),
        Ok(false) => {
            proof {
                assert(old(db)@.remove(spec_key(id)) =~= old(db)@);
            }
            Err(not_found_error(id))
        },
    }
}

} // verus!
