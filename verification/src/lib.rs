//! Task lifecycle and retention for a small personal task tracker.
//!
//! A [`store::TaskStore`] holds the task table; tasks move from active to done
//! or removed, and terminal tasks are purged once they are older than the
//! configured retention windows. [`operations`] holds one function per user
//! command, [`input`] reads what the user types, [`timestamp`] encodes
//! instants for storage, and [`laws`] states what holds of all of it.

pub mod config;
pub mod input;
pub mod laws;
pub mod location;
pub mod operations;
pub mod store;
pub mod task;
pub mod timestamp;
