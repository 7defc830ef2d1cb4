use super::{views_of, Todo, TodoView, ID};
use crate::error::{invalid, Error};
use crate::text::{count_text, decimal, id_text, join, joined, same_text};
use vstd::prelude::*;
use vstd::string::*;

verus! {

/// What was done to the store.
#[derive(Clone, Copy, Debug, PartialEq, Eq, Structural)]
pub enum Action {
    Add,
    Update,
    Remove,
}

/// The action that the keyword `word` names.
pub open spec fn action_of(word: Seq<char>) -> Option<Action> {
    if word == "add"@ {
        Some(Action::Add)
    } else if word == "update"@ {
        Some(Action::Update)
    } else if word == "remove"@ {
        Some(Action::Remove)
    } else {
        None
    }
}

impl Action {
    /// The keyword that names an action.
    pub open spec fn name(self) -> Seq<char> {
        match self {
            Action::Add => "add"@,
            Action::Update => "update"@,
            Action::Remove => "remove"@,
        }
    }

    /// The keyword that names this action.
    pub fn to_string(&self) -> (r: String)
        ensures
            r@ == self.name(),
    {
        match self {
            Action::Add => String::from_str("add"),
            Action::Update => String::from_str("update"),
            Action::Remove => String::from_str("remove"),
        }
    }

    /// The action that `value` names.
    pub fn try_from(value: String) -> (r: Result<Action, Error>)
        ensures
            match action_of(value@) {
                Some(a) => r is Ok && r.unwrap() == a,
                None => r is Err && invalid(r.unwrap_err(), "invalid action: "@ + value@),
            },
    {
        if same_text(value.as_str(), "add") {
            Ok(Action::Add)
        } else if same_text(value.as_str(), "update") {
            Ok(Action::Update)
        } else if same_text(value.as_str(), "remove") {
            Ok(Action::Remove)
        } else {
            Err(Error::InvalidValue(String::from_str("invalid action: ").concat(value.as_str())))
        }
    }
}

/// What an event is about, with the values before and after where there are
/// both.
#[derive(Debug)]
#[allow(inconsistent_fields)]
pub enum Kind {
    AddTodo(Todo),
    UpdateTodo { before: Todo, after: Todo },
    RemoveTodo(Todo),
    AddContext(String),
    RemoveContext(String, Vec<Todo>),
    SetContext { before: String, after: String },
}

/// What a `Kind` holds, as plain values.
#[allow(inconsistent_fields)]
pub enum KindView {
    AddTodo(TodoView),
    UpdateTodo { before: TodoView, after: TodoView },
    RemoveTodo(TodoView),
    AddContext(Seq<char>),
    RemoveContext(Seq<char>, Seq<TodoView>),
    SetContext { before: Seq<char>, after: Seq<char> },
}

impl View for Kind {
    type V = KindView;

    open spec fn view(&self) -> KindView {
        match self {
            Kind::AddTodo(t) => KindView::AddTodo(t@),
            Kind::UpdateTodo { before, after } => KindView::UpdateTodo {
                before: before@,
                after: after@,
            },
            Kind::RemoveTodo(t) => KindView::RemoveTodo(t@),
            Kind::AddContext(c) => KindView::AddContext(c@),
            Kind::RemoveContext(c, todos) => KindView::RemoveContext(c@, views_of(todos@)),
            Kind::SetContext { before, after } => KindView::SetContext {
                before: before@,
                after: after@,
            },
        }
    }
}

impl KindView {
    /// The name of this kind of event.
    pub open spec fn name(self) -> Seq<char> {
        match self {
            KindView::AddTodo(_) => "add_todo"@,
            KindView::UpdateTodo { .. } => "update_todo"@,
            KindView::RemoveTodo(_) => "remove_todo"@,
            KindView::AddContext(_) => "add_context"@,
            KindView::RemoveContext(_, _) => "remove_context"@,
            KindView::SetContext { .. } => "set_context"@,
        }
    }

    /// The action that an event of this kind records.
    pub open spec fn action(self) -> Action {
        match self {
            KindView::AddTodo(_) => Action::Add,
            KindView::UpdateTodo { .. } => Action::Update,
            KindView::RemoveTodo(_) => Action::Remove,
            KindView::AddContext(_) => Action::Add,
            KindView::RemoveContext(_, _) => Action::Remove,
            KindView::SetContext { .. } => Action::Update,
        }
    }
}

/// The note on a field that went from `before` to `after`.
pub open spec fn change_note(field: Seq<char>, before: Seq<char>, after: Seq<char>) -> Seq<char> {
    field + ": '"@ + before + "' -> '"@ + after + "'"@
}

/// The note on a change of context, where there is one to be made.
pub open spec fn context_note(before: Option<Seq<char>>, after: Option<Seq<char>>) -> Seq<
    Seq<char>,
> {
    if before == after {
        Seq::<Seq<char>>::empty()
    } else {
        match (before, after) {
            (Some(b), Some(a)) => seq![change_note("context"@, b, a)],
            (Some(b), None) => seq!["context: removed from '"@ + b + "'"@],
            (None, Some(a)) => seq!["context: set to '"@ + a + "'"@],
            (None, None) => Seq::<Seq<char>>::empty(),
        }
    }
}

/// The notes on what an update changed: status, priority, subject,
/// description and context, in this order, each only if it changed.
pub open spec fn change_notes(before: TodoView, after: TodoView) -> Seq<Seq<char>> {
    (if before.status != after.status {
        seq![change_note("status"@, before.status.name(), after.status.name())]
    } else {
        Seq::<Seq<char>>::empty()
    }) + (if before.prio != after.prio {
        seq![change_note("prio"@, before.prio.name(), after.prio.name())]
    } else {
        Seq::<Seq<char>>::empty()
    }) + (if before.subject != after.subject {
        seq![change_note("subject"@, before.subject, after.subject)]
    } else {
        Seq::<Seq<char>>::empty()
    }) + (if before.description != after.description {
        seq!["description: <...>"@]
    } else {
        Seq::<Seq<char>>::empty()
    }) + context_note(before.context, after.context)
}

impl KindView {
    /// What an event of this kind says in the history.
    pub open spec fn described(self) -> Seq<char> {
        match self {
            KindView::AddTodo(t) => "Added todo with ID "@ + decimal(t.id.0 as nat),
            KindView::UpdateTodo { before, after } => if change_notes(before, after).len() == 0 {
                "Updated todo: no changes"@
            } else {
                "Updated todo: "@ + joined(change_notes(before, after), ", "@)
            },
            KindView::RemoveTodo(t) => "Removed todo with ID "@ + decimal(t.id.0 as nat),
            KindView::AddContext(c) => "Added new context with name '"@ + c + "'"@,
            KindView::RemoveContext(c, todos) => "Removed context with name '"@ + c + "' and "@
                + decimal(todos.len()) + " associated todos"@,
            KindView::SetContext { before, after } => if before.len() == 0 {
                "Context set to '"@ + after + "'"@
            } else if after.len() == 0 {
                "Unset context from '"@ + before + "'"@
            } else {
                "Changed context from '"@ + before + "' to '"@ + after + "'"@
            },
        }
    }
}

/// The note on a field that went from `before` to `after`.
fn note(field: &str, before: &str, after: &str) -> (r: String)
    ensures
        r@ == change_note(field@, before@, after@),
{
    String::from_str(field).concat(": '").concat(before).concat("' -> '").concat(after).concat("'")
}

/// The notes on what an update changed.
fn notes(before: &Todo, after: &Todo) -> (r: Vec<String>)
    ensures
        views_of(r@) == change_notes(before@, after@),
{
    let mut changes: Vec<String> = Vec::new();
    let ghost empty = Seq::<Seq<char>>::empty();
    assert(views_of(changes@) =~= empty);
    if before.status != after.status {
        changes.push(
            note("status", before.status.to_string().as_str(), after.status.to_string().as_str()),
        );
    }
    let ghost p1 = views_of(changes@);
    assert(p1 =~= if before@.status != after@.status {
        seq![change_note("status"@, before@.status.name(), after@.status.name())]
    } else {
        empty
    });
    if before.prio != after.prio {
        changes.push(
            note("prio", before.prio.to_string().as_str(), after.prio.to_string().as_str()),
        );
    }
    let ghost p2 = views_of(changes@);
    assert(p2 =~= p1 + (if before@.prio != after@.prio {
        seq![change_note("prio"@, before@.prio.name(), after@.prio.name())]
    } else {
        empty
    }));
    if !(before.subject == after.subject) {
        changes.push(note("subject", before.subject.as_str(), after.subject.as_str()));
    }
    let ghost p3 = views_of(changes@);
    assert(p3 =~= p2 + (if before@.subject != after@.subject {
        seq![change_note("subject"@, before@.subject, after@.subject)]
    } else {
        empty
    }));
    if !(before.description == after.description) {
        changes.push(String::from_str("description: <...>"));
    }
    let ghost p4 = views_of(changes@);
    assert(p4 =~= p3 + (if before@.description != after@.description {
        seq!["description: <...>"@]
    } else {
        empty
    }));
    match (&before.context, &after.context) {
        (Some(b), Some(a)) => {
            if !(*b == *a) {
                changes.push(note("context", b.as_str(), a.as_str()));
            }
        },
        (Some(b), None) => {
            changes.push(String::from_str("context: removed from '").concat(b.as_str()).concat("'"));
        },
        (None, Some(a)) => {
            changes.push(String::from_str("context: set to '").concat(a.as_str()).concat("'"));
        },
        (None, None) => {},
    }
    assert(views_of(changes@) =~= p4 + context_note(before@.context, after@.context));
    changes
}

impl Kind {
    /// What an event of this kind says in the history.
    pub fn to_string(&self) -> (r: String)
        ensures
            r@ == self@.described(),
    {
        match self {
            Kind::AddTodo(todo) => String::from_str("Added todo with ID ").concat(
                id_text(todo.id).as_str(),
            ),
            Kind::UpdateTodo { before, after } => {
                let changes = notes(before, after);
                if changes.is_empty() {
                    assert(views_of(changes@).len() == 0);
                    String::from_str("Updated todo: no changes")
                } else {
                    assert(views_of(changes@).len() > 0);
                    String::from_str("Updated todo: ").concat(join(&changes, ", ").as_str())
                }
            },
            Kind::RemoveTodo(todo) => String::from_str("Removed todo with ID ").concat(
                id_text(todo.id).as_str(),
            ),
            Kind::AddContext(context) => String::from_str("Added new context with name '").concat(
                context.as_str(),
            ).concat("'"),
            Kind::RemoveContext(context, todos) => {
                assert(views_of(todos@).len() == todos@.len());
                String::from_str("Removed context with name '").concat(context.as_str()).concat(
                    "' and ",
                ).concat(count_text(todos.len()).as_str()).concat(" associated todos")
            },
            Kind::SetContext { before, after } => {
                if before.as_str().unicode_len() == 0 {
                    String::from_str("Context set to '").concat(after.as_str()).concat("'")
                } else if after.as_str().unicode_len() == 0 {
                    String::from_str("Unset context from '").concat(before.as_str()).concat("'")
                } else {
                    String::from_str("Changed context from '").concat(before.as_str()).concat(
                        "' to '",
                    ).concat(after.as_str()).concat("'")
                }
            },
        }
    }

    pub fn type_str(&self) -> (r: String)
        ensures
            r@ == self@.name(),
    {
        match self {
            Kind::AddTodo(_) => String::from_str("add_todo"),
            Kind::UpdateTodo { .. } => String::from_str("update_todo"),
            Kind::RemoveTodo(_) => String::from_str("remove_todo"),
            Kind::AddContext(_) => String::from_str("add_context"),
            Kind::RemoveContext(_, _) => String::from_str("remove_context"),
            Kind::SetContext { .. } => String::from_str("set_context"),
        }
    }

    /// The action that an event of this kind records.
    pub fn action(&self) -> (r: Action)
        ensures
            r == self@.action(),
    {
        match self {
            Kind::AddTodo(_) => Action::Add,
            Kind::UpdateTodo { .. } => Action::Update,
            Kind::RemoveTodo(_) => Action::Remove,
            Kind::AddContext(_) => Action::Add,
            Kind::RemoveContext(_, _) => Action::Remove,
            Kind::SetContext { .. } => Action::Update,
        }
    }
}

/// One entry of the history: what was done, to what, and when.
#[derive(Debug)]
pub struct Event {
    pub id: ID,
    pub action: Action,
    pub kind: Kind,
    pub timestamp: i64,
}

/// What an event holds, as plain values.
pub struct EventView {
    pub id: ID,
    pub action: Action,
    pub kind: KindView,
    pub timestamp: i64,
}

impl View for Event {
    type V = EventView;

    open spec fn view(&self) -> EventView {
        EventView {
            id: self.id,
            action: self.action,
            kind: self.kind@,
            timestamp: self.timestamp,
        }
    }
}

impl Event {
    /// What this event says in the history: its number and what its kind
    /// says.
    pub fn to_string(&self) -> (r: String)
        ensures
            r@ == decimal(self.id.0 as nat) + " -- "@ + self.kind@.described(),
    {
        id_text(self.id).concat(" -- ").concat(self.kind.to_string().as_str())
    }

    pub fn new(id: ID, action: Action, kind: Kind, timestamp: i64) -> (r: Self)
        ensures
            r == (Event { id, action, kind, timestamp }),
    {
        Self { id, action, kind, timestamp }
    }
}

} // verus!
