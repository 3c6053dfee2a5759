//! An in-memory store of polls and the responses given to them.
//!
//! The store is a plain value with `&mut self` operations; callers that
//! share it between threads put it behind a single lock, which makes every
//! operation atomic and orders all mutations.

pub mod poll;
pub mod store;
pub mod laws;
