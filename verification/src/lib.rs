//! A small read-only "heroes" service core: a repository abstraction for
//! looking up entities by a name pattern, the query handler that normalizes
//! the caller's filter and maps data-access outcomes to HTTP-style responses,
//! and the JSON encoding of the entities.

pub mod handler;
pub mod hero;
pub mod json;
pub mod repository;
