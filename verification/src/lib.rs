//! Nested span tracing: a context records a tree of timed frames, each with
//! fields, log lines, child frames and an outcome, and renders the finished
//! tree as text.

pub mod backend;
pub mod context;
pub mod laws;
pub mod logger;
pub mod observe;
pub mod query;
pub mod span;
pub mod text;
pub mod time;
pub mod value;
