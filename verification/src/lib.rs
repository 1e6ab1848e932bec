//! A small task-tracking library: a durable record store for todo items,
//! the todo entity itself with its mutation rules, the wire-level request
//! and response shapes, and the request handlers that tie them together.

pub mod codec;
pub mod handlers;
pub mod laws;
pub mod model;
pub mod store;
pub mod transfer;
