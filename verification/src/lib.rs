//! An in-memory todo store with list, create, update and delete operations.
//!
//! `store` holds the record type and the store itself; `handlers` holds the
//! four request-level operations built on top of it.

pub mod handlers;
pub mod store;
pub mod todo;
