//! Wire-format request and response shapes: what the REST API reads and
//! writes, mapped losslessly to and from the domain model.

use vstd::prelude::*;

verus! {

/// Priority levels on the wire: the same three values as the model.
#[derive(Debug, Clone, Copy, PartialEq, Eq, Structural)]
pub enum Priority {
    Low,
    Medium,
    High,
}

/// Request to create a new todo; the priority is required.
#[derive(Debug, Clone, PartialEq)]
pub struct CreateTodoRequest {
    pub title: String,
    pub description: Option<String>,
    pub due_date: Option<i64>,
    pub priority: Priority,
}

/// Request to update an existing todo. A nullable field distinguishes
/// "leave unchanged" (outer `None`) from "clear" (`Some(None)`) from "set"
/// (`Some(Some(v))`).
#[derive(Debug, Clone, PartialEq)]
pub struct UpdateTodoRequest {
    pub title: Option<String>,
    pub description: Option<Option<String>>,
    pub due_date: Option<Option<i64>>,
    pub priority: Option<Priority>,
    pub completed: Option<bool>,
}

/// Response carrying a full todo snapshot.
#[derive(Debug, Clone, PartialEq)]
pub struct TodoResponse {
    pub id: u128,
    pub title: String,
    pub description: Option<String>,
    pub due_date: Option<i64>,
    pub priority: Priority,
    pub completed: bool,
    pub created_at: i64,
    pub updated_at: i64,
}

/// Error response: a single message string.
#[derive(Debug, Clone, PartialEq)]
pub struct ErrorResponse {
    pub error: String,
}

impl ErrorResponse {
    /// Wraps a message in an error response.
    pub fn new(error: String) -> (r: ErrorResponse)
        ensures
            r.error == error,
    {
        ErrorResponse { error }
    }
}

} // verus!
