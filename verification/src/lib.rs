//! A personal task tracker: todos with status, priority, tags, a context and
//! links between them, kept in a record store and changed only through the
//! service, which keeps both ends of every blocking link in step.
pub mod clock;
pub mod error;
pub mod format;
pub mod model;
pub mod repository;
pub mod service;
pub mod style;
pub mod text;
pub mod util;
