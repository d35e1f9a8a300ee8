//! An identity-resolution provider for the name-service switch: it answers
//! lookups of users, groups and shadow entries from a backend that listens on
//! a local socket.
//!
//! This library holds the provider's logic, each function with a contract
//! that is proved: the cursor of an enumeration, the writer that packs a
//! record into the caller's buffer, the routes to the backend, and the entry
//! points that turn what happened into the status the dispatcher expects.
//! Talking to the backend and to the C caller is left to the program built
//! on it.

pub mod config;
pub mod cursor;
pub mod entry;
pub mod errno;
pub mod laws;
pub mod routes;
pub mod types;
pub mod util;
