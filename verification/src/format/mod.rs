//! Todos as text for a terminal: a table of many, a card of one.
use crate::model::{Event, Todo};
use vstd::prelude::*;

pub mod card;
pub mod table;

pub use card::Card;
pub use table::TableFormatter;

verus! {

/// Formatter is used to format items in a user-friendly way.
pub trait Formatter {
    /// Format a slice of todos nicely.
    fn todos(&self, todos: &[Todo]) -> String;

    /// Format a single todo.
    fn todo(&self, todo: &Todo) -> String;

    /// Format a slice of events.
    fn events(&self, events: &[Event]) -> String;
}

} // verus!
