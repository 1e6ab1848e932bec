//! The todo entity and its mutation rules, independent of storage and
//! wire formats.
//!
//! Timestamps are microseconds since the Unix epoch; identifiers are the
//! 128-bit value of a v4 UUID. Every mutation comes in two forms: a
//! `..._at` function that takes the timestamp as an argument and is fully
//! specified, and a clock-reading form under the entity's usual name.

use vstd::prelude::*;

verus! {

/// Priority levels a todo can carry.
#[derive(Debug, Clone, Copy, PartialEq, Eq, Structural)]
pub enum Priority {
    Low,
    Medium,
    High,
}

/// The mathematical value of a [`Todo`].
pub ghost struct TodoView {
    pub id: u128,
    pub title: Seq<char>,
    pub description: Option<Seq<char>>,
    pub due_date: Option<i64>,
    pub priority: Priority,
    pub completed: bool,
    pub created_at: i64,
    pub updated_at: i64,
}

impl TodoView {
    /// A todo is well formed when it was never updated before it was created.
    pub open spec fn wf(self) -> bool {
        self.created_at <= self.updated_at
    }
}

/// A single task: the domain entity this library stores and serves.
#[derive(Debug, Clone, PartialEq)]
pub struct Todo {
    pub id: u128,
    pub title: String,
    pub description: Option<String>,
    pub due_date: Option<i64>,
    pub priority: Priority,
    pub completed: bool,
    pub created_at: i64,
    pub updated_at: i64,
}

impl View for Todo {
    type V = TodoView;

    open spec fn view(&self) -> TodoView {
        TodoView {
            id: self.id,
            title: self.title@,
            description: self.description.deep_view(),
            due_date: self.due_date,
            priority: self.priority,
            completed: self.completed,
            created_at: self.created_at,
            updated_at: self.updated_at,
        }
    }
}

/// The value of a todo after its completion flag is set to `done` at time `now`.
pub open spec fn spec_set_completed(t: TodoView, done: bool, now: i64) -> TodoView {
    TodoView { completed: done, updated_at: now, ..t }
}

/// The value of a todo after a partial update at time `now`: each present
/// argument replaces its field, absent arguments leave the field alone, and
/// the update time is refreshed unconditionally.
pub open spec fn spec_apply_update(
    t: TodoView,
    title: Option<Seq<char>>,
    description: Option<Option<Seq<char>>>,
    due_date: Option<Option<i64>>,
    priority: Option<Priority>,
    now: i64,
) -> TodoView {
    TodoView {
        title: match title {
            Some(s) => s,
            None => t.title,
        },
        description: match description {
            Some(d) => d,
            None => t.description,
        },
        due_date: match due_date {
            Some(d) => d,
            None => t.due_date,
        },
        priority: match priority {
            Some(p) => p,
            None => t.priority,
        },
        updated_at: now,
        ..t
    }
}

/// Relies on uuid's `Uuid::new_v4` to draw a fresh random identifier.
/// Nothing is assumed of the value drawn.
#[verifier::external_body]
fn fresh_id() -> u128 {
    uuid::Uuid::new_v4().as_u128()
}

/// Relies on chrono's `Utc::now` for the current wall-clock time in
/// microseconds. Nothing is assumed of the value read.
#[verifier::external_body]
fn now_micros() -> i64 {
    chrono::Utc::now().timestamp_micros()
}

impl Todo {
    /// A todo is well formed when its view is.
    pub open spec fn wf(self) -> bool {
        self@.wf()
    }

    /// Builds a todo from explicit identifier and creation time: completed
    /// is false and both timestamps are the creation time.
    pub fn create(
        id: u128,
        title: String,
        description: Option<String>,
        due_date: Option<i64>,
        priority: Priority,
        now: i64,
    ) -> (r: Todo)
        ensures
            r@ == (TodoView {
                id,
                title: title@,
                description: description.deep_view(),
                due_date,
                priority,
                completed: false,
                created_at: now,
                updated_at: now,
            }),
            r.wf(),
    {
        Todo { id, title, description, due_date, priority, completed: false, created_at: now, updated_at: now }
    }

    /// Creates a todo with a freshly drawn identifier and the current time:
    /// completed is false and both timestamps are equal.
    pub fn new(
        title: String,
        description: Option<String>,
        due_date: Option<i64>,
        priority: Priority,
    ) -> (r: Todo)
        ensures
            r@.title == title@,
            r@.description == description.deep_view(),
            r@.due_date == due_date,
            r@.priority == priority,
            r@.completed == false,
            r@.created_at == r@.updated_at,
            r.wf(),
    {
        let id = fresh_id();
        let now = now_micros();
        Todo::create(id, title, description, due_date, priority, now)
    }

    /// Sets the completion flag to `done` at the given time, refreshing the
    /// update time even when the flag does not change.
    pub fn set_completed_at(&mut self, done: bool, now: i64)
        requires
            now >= old(self)@.created_at,
        ensures
            final(self)@ == spec_set_completed(old(self)@, done, now),
            final(self).wf(),
    {
        self.completed = done;
        self.updated_at = now;
    }

    /// Clamps a proposed update time so that it never precedes creation.
    fn clock_floor(&self, now: i64) -> (r: i64)
        ensures
            r >= self@.created_at,
            now >= self@.created_at ==> r == now,
    {
        if now < self.created_at {
            self.created_at
        } else {
            now
        }
    }

    /// Marks the todo completed at the current time; the update time is
    /// refreshed even when the todo was already completed.
    pub fn mark_completed(&mut self)
        ensures
            final(self)@ == spec_set_completed(old(self)@, true, final(self)@.updated_at),
            final(self)@.updated_at >= old(self)@.created_at,
            final(self).wf(),
    {
        let now = now_micros();
        let t = self.clock_floor(now);
        self.set_completed_at(true, t);
    }

    /// Marks the todo not completed at the current time; the update time is
    /// refreshed even when the todo was not completed.
    pub fn mark_incomplete(&mut self)
        ensures
            final(self)@ == spec_set_completed(old(self)@, false, final(self)@.updated_at),
            final(self)@.updated_at >= old(self)@.created_at,
            final(self).wf(),
    {
        let now = now_micros();
        let t = self.clock_floor(now);
        self.set_completed_at(false, t);
    }

    /// Applies a partial update at the given time: each present argument
    /// replaces its field, and the update time is refreshed even when no
    /// field changed value.
    pub fn update_at(
        &mut self,
        title: Option<String>,
        description: Option<Option<String>>,
        due_date: Option<Option<i64>>,
        priority: Option<Priority>,
        now: i64,
    )
        requires
            now >= old(self)@.created_at,
        ensures
            final(self)@ == spec_apply_update(
                old(self)@,
                title.deep_view(),
                description.deep_view(),
                due_date,
                priority,
                now,
            ),
            final(self).wf(),
    {
        if let Some(t) = title {
            self.title = t;
        }
        if let Some(d) = description {
            self.description = d;
        }
        if let Some(dd) = due_date {
            self.due_date = dd;
        }
        if let Some(p) = priority {
            self.priority = p;
        }
        self.updated_at = now;
    }

    /// Applies a partial update at the current time.
    pub fn update(
        &mut self,
        title: Option<String>,
        description: Option<Option<String>>,
        due_date: Option<Option<i64>>,
        priority: Option<Priority>,
    )
        ensures
            final(self)@ == spec_apply_update(
                old(self)@,
                title.deep_view(),
                description.deep_view(),
                due_date,
                priority,
                final(self)@.updated_at,
            ),
            final(self)@.updated_at >= old(self)@.created_at,
            final(self).wf(),
    {
        let now = now_micros();
        let t = self.clock_floor(now);
        self.update_at(title, description, due_date, priority, t);
    }
}

} // verus!
