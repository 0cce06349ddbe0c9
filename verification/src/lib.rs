//! An in-memory to-do list: the items, the store that owns them and hands out
//! their identifiers, and the handlers that an HTTP front end calls.

pub mod models;
pub mod store;
pub mod laws;
pub mod routes;
