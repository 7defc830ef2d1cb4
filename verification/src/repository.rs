use crate::error::Error;
use crate::model::todo::text_of;
use crate::model::{views_of, without, Event, EventView, Todo, TodoView, ID};
use crate::text::id_text;
use crate::text::decimal;
use vstd::prelude::*;

verus! {

/// True when a todo with identifier `id` is among `todos`.
pub open spec fn has_id(todos: Seq<TodoView>, id: ID) -> bool {
    exists|i: int| 0 <= i < todos.len() && (#[trigger] todos[i]).id == id
}

/// The place of the todo with identifier `id` among `todos`.
pub open spec fn index_of_id(todos: Seq<TodoView>, id: ID) -> int {
    choose|i: int| 0 <= i < todos.len() && (#[trigger] todos[i]).id == id
}

/// The todo with identifier `id` among `todos`.
pub open spec fn record(todos: Seq<TodoView>, id: ID) -> TodoView {
    todos[index_of_id(todos, id)]
}

/// True when no two of `todos` have the same identifier.
pub open spec fn unique_ids(todos: Seq<TodoView>) -> bool {
    forall|i: int, j: int|
        0 <= i < todos.len() && 0 <= j < todos.len() && i != j ==> (#[trigger] todos[i]).id != (
        #[trigger] todos[j]).id
}

/// `todos` with the todo that has the identifier of `t` overwritten by `t`.
pub open spec fn replaced(todos: Seq<TodoView>, t: TodoView) -> Seq<TodoView> {
    todos.update(index_of_id(todos, t.id), t)
}

/// What the store holds, as plain values.
pub struct RepositoryView {
    /// The todos, in the order in which they were added.
    pub todos: Seq<TodoView>,
    /// The identifier that the next todo gets.
    pub next_id: u16,
    /// The current context, if one is set.
    pub current: Option<Seq<char>>,
    /// The names of the known contexts.
    pub contexts: Seq<Seq<char>>,
    /// The history, oldest first.
    pub events: Seq<EventView>,
}

impl RepositoryView {
    /// True when no identifier occurs twice and every one of them is below
    /// the next to be given.
    pub open spec fn wf(self) -> bool {
        &&& unique_ids(self.todos)
        &&& forall|i: int| 0 <= i < self.todos.len() ==> (#[trigger] self.todos[i]).id.0 < self.next_id
        &&& self.events.len() <= u16::MAX
    }
}

/// The record store: todos by identifier, the names of the contexts, the
/// current context and the history.
#[derive(Debug)]
pub struct Repository {
    todos: Vec<Todo>,
    next_id: u16,
    current: Option<String>,
    contexts: Vec<String>,
    events: Vec<Event>,
}

impl View for Repository {
    type V = RepositoryView;

    closed spec fn view(&self) -> RepositoryView {
        RepositoryView {
            todos: views_of(self.todos@),
            next_id: self.next_id,
            current: text_of(self.current),
            contexts: views_of(self.contexts@),
            events: views_of(self.events@),
        }
    }
}

/// With unique identifiers, the place of an identifier is the one place
/// where it stands.
pub proof fn lemma_index_of_id(todos: Seq<TodoView>, i: int)
    requires
        unique_ids(todos),
        0 <= i < todos.len(),
    ensures
        has_id(todos, todos[i].id),
        index_of_id(todos, todos[i].id) == i,
        record(todos, todos[i].id) == todos[i],
{
}

/// Overwriting a todo keeps every identifier in its place and changes no
/// other todo.
pub proof fn lemma_replaced(todos: Seq<TodoView>, t: TodoView)
    requires
        unique_ids(todos),
        has_id(todos, t.id),
    ensures
        unique_ids(replaced(todos, t)),
        replaced(todos, t).len() == todos.len(),
        forall|id: ID| has_id(replaced(todos, t), id) == has_id(todos, id),
        forall|id: ID|
            has_id(todos, id) ==> index_of_id(replaced(todos, t), id) == index_of_id(todos, id),
        record(replaced(todos, t), t.id) == t,
        forall|id: ID|
            has_id(todos, id) && id != t.id ==> record(replaced(todos, t), id) == record(
                todos,
                id,
            ),
        forall|i: int| 0 <= i < todos.len() ==> (#[trigger] replaced(todos, t)[i]).id == todos[i].id,
{
    let r = replaced(todos, t);
    let p = index_of_id(todos, t.id);
    assert forall|i: int| 0 <= i < todos.len() implies (#[trigger] r[i]).id == todos[i].id by {}
    assert forall|id: ID| has_id(r, id) == has_id(todos, id) by {
        if has_id(todos, id) {
            let i = index_of_id(todos, id);
            assert(r[i].id == id);
        }
        if has_id(r, id) {
            let i = index_of_id(r, id);
            assert(todos[i].id == id);
        }
    }
    assert forall|id: ID| has_id(todos, id) implies index_of_id(r, id) == index_of_id(todos, id) by {
        let i = index_of_id(todos, id);
        assert(r[i].id == id);
        lemma_index_of_id(r, i);
    }
}

impl Repository {
    /// True when the store is in order: see `RepositoryView::wf`.
    pub open spec fn wf(&self) -> bool {
        self@.wf()
    }

    /// An empty store: the first todo gets the identifier 1.
    pub fn new() -> (r: Self)
        ensures
            r.wf(),
            r@.todos == Seq::<TodoView>::empty(),
            r@.next_id == 1,
            r@.current.is_none(),
            r@.contexts == Seq::<Seq<char>>::empty(),
            r@.events == Seq::<EventView>::empty(),
    {
        let r = Self {
            todos: Vec::new(),
            next_id: 1,
            current: None,
            contexts: Vec::new(),
            events: Vec::new(),
        };
        assert(r@.todos =~= Seq::<TodoView>::empty());
        assert(r@.contexts =~= Seq::<Seq<char>>::empty());
        assert(r@.events =~= Seq::<EventView>::empty());
        r
    }

    /// A store that holds what is given, or `None` where an identifier
    /// occurs twice, where one is not below `next_id`, or where the history
    /// has more events than it can number.
    pub fn restore(
        todos: Vec<Todo>,
        next_id: u16,
        current: Option<String>,
        contexts: Vec<String>,
        events: Vec<Event>,
    ) -> (r: Option<Self>)
        ensures
            r is Some <==> (RepositoryView {
                todos: views_of(todos@),
                next_id,
                current: text_of(current),
                contexts: views_of(contexts@),
                events: views_of(events@),
            }).wf(),
            r matches Some(repo) ==> repo@ == (RepositoryView {
                todos: views_of(todos@),
                next_id,
                current: text_of(current),
                contexts: views_of(contexts@),
                events: views_of(events@),
            }),
    {
        let ghost all = views_of(todos@);
        if events.len() > 65535 {
            return None;
        }
        let mut i: usize = 0;
        while i < todos.len()
            invariant
                i <= todos@.len(),
                all == views_of(todos@),
                forall|k: int| 0 <= k < i ==> (#[trigger] all[k]).id.0 < next_id,
                forall|k: int, l: int|
                    0 <= k < i && 0 <= l < k ==> (#[trigger] all[k]).id != (#[trigger] all[l]).id,
            decreases todos@.len() - i,
        {
            if todos[i].id.0 >= next_id {
                assert(!(all[i as int].id.0 < next_id));
                return None;
            }
            let mut j: usize = 0;
            while j < i
                invariant
                    j <= i,
                    i < todos@.len(),
                    all == views_of(todos@),
                    forall|l: int| 0 <= l < j ==> all[i as int].id != (#[trigger] all[l]).id,
                decreases i - j,
            {
                if todos[j].id == todos[i].id {
                    assert(all[j as int].id == all[i as int].id);
                    return None;
                }
                j += 1;
            }
            i += 1;
        }
        assert forall|k: int, l: int|
            0 <= k < all.len() && 0 <= l < all.len() && k != l implies (#[trigger] all[k]).id != (
        #[trigger] all[l]).id by {
            if l < k {
            } else {
                assert(all[l].id != all[k].id);
            }
        }
        Some(Self { todos, next_id, current, contexts, events })
    }

    /// The identifier that the next todo gets.
    pub fn next_id(&self) -> (r: u16)
        ensures
            r == self@.next_id,
    {
        self.next_id
    }

    /// The place of the todo with identifier `id`, if there is one.
    pub fn position(&self, id: ID) -> (r: Option<usize>)
        requires
            self.wf(),
        ensures
            r is Some == has_id(self@.todos, id),
            r matches Some(i) ==> i == index_of_id(self@.todos, id) && i < self@.todos.len(),
    {
        let mut i: usize = 0;
        while i < self.todos.len()
            invariant
                i <= self.todos@.len(),
                self.wf(),
                forall|k: int| 0 <= k < i ==> (#[trigger] self@.todos[k]).id != id,
            decreases self.todos@.len() - i,
        {
            if self.todos[i].id == id {
                proof {
                    assert(self@.todos[i as int].id == id);
                    lemma_index_of_id(self@.todos, i as int);
                }
                return Some(i);
            }
            i += 1;
        }
        None
    }

    /// The todo with identifier `id`.
    pub fn get_todo(&self, id: &ID) -> (r: Result<Todo, Error>)
        requires
            self.wf(),
        ensures
            has_id(self@.todos, *id) ==> r is Ok && r.unwrap()@ == record(self@.todos, *id),
            !has_id(self@.todos, *id) ==> r is Err && missing(r.unwrap_err(), *id),
    {
        match self.position(*id) {
            Some(i) => Ok(self.todos[i].duplicate()),
            None => Err(Error::NotFound(Some(id_text(*id)))),
        }
    }

    /// All todos, in the order in which they were added.
    pub fn get_todos(&self) -> (r: Vec<Todo>)
        ensures
            views_of(r@) == self@.todos,
    {
        let mut out: Vec<Todo> = Vec::new();
        let mut i: usize = 0;
        while i < self.todos.len()
            invariant
                i <= self.todos@.len(),
                out@.len() == i,
                forall|k: int| 0 <= k < i ==> (#[trigger] out@[k])@ == self@.todos[k],
            decreases self.todos@.len() - i,
        {
            out.push(self.todos[i].duplicate());
            i += 1;
        }
        assert(views_of(out@) =~= self@.todos);
        out
    }

    /// The number of todos in the store.
    pub fn count(&self) -> (r: usize)
        ensures
            r == self@.todos.len(),
    {
        self.todos.len()
    }

    /// Adds `todo` under the next free identifier and returns it as it was
    /// stored. Fails, and changes nothing, when no identifier is left.
    pub fn add_todo(&mut self, todo: Todo) -> (r: Result<Todo, Error>)
        requires
            old(self).wf(),
        ensures
            final(self).wf(),
            old(self)@.next_id < u16::MAX ==> r is Ok && r.unwrap()@ == (TodoView {
                id: ID(old(self)@.next_id),
                ..todo@
            }) && final(self)@ == (RepositoryView {
                todos: old(self)@.todos.push(r.unwrap()@),
                next_id: (old(self)@.next_id + 1) as u16,
                ..old(self)@
            }),
            old(self)@.next_id == u16::MAX ==> r is Err && r.unwrap_err() is Store && final(self)@
                == old(self)@,
    {
        if self.next_id == u16::MAX {
            return Err(Error::Store(String::from_str("no identifier left for a new todo")));
        }
        let mut stored = todo;
        stored.id = ID(self.next_id);
        let copy = stored.duplicate();
        self.todos.push(stored);
        self.next_id = self.next_id + 1;
        proof {
            assert(self@.todos =~= old(self)@.todos.push(copy@));
            assert(self@.contexts =~= old(self)@.contexts);
            assert(self@.events =~= old(self)@.events);
        }
        Ok(copy)
    }

    /// Overwrites the stored todo that has the identifier of `todo`.
    pub fn replace_todo(&mut self, todo: &Todo) -> (r: Result<(), Error>)
        requires
            old(self).wf(),
        ensures
            final(self).wf(),
            has_id(old(self)@.todos, todo.id) ==> r is Ok && final(self)@ == (RepositoryView {
                todos: replaced(old(self)@.todos, todo@),
                ..old(self)@
            }),
            !has_id(old(self)@.todos, todo.id) ==> r is Err && missing(r.unwrap_err(), todo.id)
                && final(self)@ == old(self)@,
    {
        match self.position(todo.id) {
            Some(i) => {
                let copy = todo.duplicate();
                self.todos[i] = copy;
                proof {
                    lemma_replaced(old(self)@.todos, todo@);
                    assert(self@.todos =~= replaced(old(self)@.todos, todo@));
                }
                Ok(())
            },
            None => Err(Error::NotFound(Some(id_text(todo.id)))),
        }
    }

    /// Takes the todo with identifier `id` out of the store and returns it.
    pub fn remove_todo(&mut self, id: &ID) -> (r: Result<Todo, Error>)
        requires
            old(self).wf(),
        ensures
            final(self).wf(),
            has_id(old(self)@.todos, *id) ==> r is Ok && r.unwrap()@ == record(old(self)@.todos, *id)
                && final(self)@ == (RepositoryView {
                todos: old(self)@.todos.remove(index_of_id(old(self)@.todos, *id)),
                ..old(self)@
            }),
            !has_id(old(self)@.todos, *id) ==> r is Err && missing(r.unwrap_err(), *id) && final(self)@ == old(self)@,
    {
        match self.position(*id) {
            Some(i) => {
                let todo = self.todos.remove(i);
                proof {
                    assert(self@.todos =~= old(self)@.todos.remove(i as int));
                }
                Ok(todo)
            },
            None => Err(Error::NotFound(Some(id_text(*id)))),
        }
    }

    /// Takes the todos of the context `context` out of the store and returns
    /// them.
    pub fn remove_todos_in(&mut self, context: &str) -> (r: Vec<Todo>)
        requires
            old(self).wf(),
        ensures
            final(self).wf(),
            final(self)@ == (RepositoryView {
                todos: others(old(self)@.todos, context@),
                ..old(self)@
            }),
            views_of(r@) == members(old(self)@.todos, context@),
    {
        let ghost all = self@.todos;
        let ghost stays = |t: TodoView| !in_context(t, context@);
        let ghost goes = |t: TodoView| in_context(t, context@);
        let mut kept: Vec<Todo> = Vec::new();
        let mut gone: Vec<Todo> = Vec::new();
        let mut i: usize = 0;
        while i < self.todos.len()
            invariant
                i <= self.todos@.len(),
                *self == *old(self),
                all == self@.todos,
                stays == (|t: TodoView| !in_context(t, context@)),
                goes == (|t: TodoView| in_context(t, context@)),
                views_of(kept@) == all.take(i as int).filter(stays),
                views_of(gone@) == all.take(i as int).filter(goes),
            decreases self.todos@.len() - i,
        {
            proof {
                assert(all.take(i as int + 1) =~= all.take(i as int).push(all[i as int]));
                all.take(i as int).lemma_filter_push(all[i as int], stays);
                all.take(i as int).lemma_filter_push(all[i as int], goes);
            }
            let member = match &self.todos[i].context {
                Some(c) => crate::text::same_text(c.as_str(), context),
                None => false,
            };
            if member {
                gone.push(self.todos[i].duplicate());
                assert(views_of(gone@) =~= all.take(i as int).filter(goes).push(all[i as int]));
            } else {
                kept.push(self.todos[i].duplicate());
                assert(views_of(kept@) =~= all.take(i as int).filter(stays).push(all[i as int]));
            }
            i += 1;
        }
        proof {
            assert(all.take(i as int) =~= all);
            lemma_filter_keeps_unique(all, stays);
            assert forall|k: int| 0 <= k < all.filter(stays).len() implies (
            #[trigger] all.filter(stays)[k]).id.0 < self.next_id by {
                let m = all.index_of(all.filter(stays)[k]);
                assert(all[m].id.0 < self.next_id);
            }
        }
        self.todos = kept;
        gone
    }

    /// Takes the context from the todos of the context `context` and
    /// returns those todos as they were.
    pub fn detach_todos_from(&mut self, context: &str) -> (r: Vec<Todo>)
        requires
            old(self).wf(),
        ensures
            final(self).wf(),
            final(self)@ == (RepositoryView {
                todos: all_out_of_context(old(self)@.todos, context@),
                ..old(self)@
            }),
            views_of(r@) == members(old(self)@.todos, context@),
    {
        let ghost all = self@.todos;
        let ghost goes = |t: TodoView| in_context(t, context@);
        let mut gone: Vec<Todo> = Vec::new();
        let mut i: usize = 0;
        while i < self.todos.len()
            invariant
                i <= self.todos@.len(),
                self.todos@.len() == all.len(),
                self.next_id == old(self).next_id,
                self.current == old(self).current,
                self.contexts == old(self).contexts,
                self.events == old(self).events,
                all == old(self)@.todos,
                goes == (|t: TodoView| in_context(t, context@)),
                views_of(gone@) == all.take(i as int).filter(goes),
                forall|k: int|
                    0 <= k < i ==> (#[trigger] self.todos@[k])@ == out_of_context(
                        all[k],
                        context@,
                    ),
                forall|k: int| i <= k < all.len() ==> (#[trigger] self.todos@[k])@ == all[k],
            decreases self.todos@.len() - i,
        {
            proof {
                assert(all.take(i as int + 1) =~= all.take(i as int).push(all[i as int]));
                all.take(i as int).lemma_filter_push(all[i as int], goes);
            }
            let member = match &self.todos[i].context {
                Some(c) => crate::text::same_text(c.as_str(), context),
                None => false,
            };
            if member {
                gone.push(self.todos[i].duplicate());
                assert(views_of(gone@) =~= all.take(i as int).filter(goes).push(all[i as int]));
                let mut t = self.todos[i].duplicate();
                t.context = None;
                self.todos[i] = t;
            }
            i += 1;
        }
        proof {
            assert(all.take(i as int) =~= all);
            assert(self@.todos =~= all_out_of_context(all, context@));
        }
        gone
    }

    /// The current context, if one is set.
    pub fn get_context(&self) -> (r: Option<String>)
        ensures
            text_of(r) == self@.current,
    {
        match &self.current {
            Some(c) => Some(c.clone()),
            None => None,
        }
    }

    /// The names of all contexts, in the order in which they were added.
    pub fn get_contexts(&self) -> (r: Vec<String>)
        ensures
            views_of(r@) == self@.contexts,
    {
        let mut out: Vec<String> = Vec::new();
        let mut i: usize = 0;
        while i < self.contexts.len()
            invariant
                i <= self.contexts@.len(),
                out@.len() == i,
                forall|k: int| 0 <= k < i ==> (#[trigger] out@[k])@ == self@.contexts[k],
            decreases self.contexts@.len() - i,
        {
            out.push(self.contexts[i].clone());
            i += 1;
        }
        assert(views_of(out@) =~= self@.contexts);
        out
    }

    /// True when a context of this name is known.
    pub fn has_context(&self, name: &str) -> (r: bool)
        ensures
            r == self@.contexts.contains(name@),
    {
        let mut i: usize = 0;
        while i < self.contexts.len()
            invariant
                i <= self.contexts@.len(),
                forall|k: int| 0 <= k < i ==> self@.contexts[k] != name@,
            decreases self.contexts@.len() - i,
        {
            if crate::text::same_text(self.contexts[i].as_str(), name) {
                assert(self@.contexts[i as int] == name@);
                return true;
            }
            i += 1;
        }
        false
    }

    /// Makes `context` the current context.
    pub fn set_context(&mut self, context: &str)
        ensures
            final(self)@ == (RepositoryView { current: Some(context@), ..old(self)@ }),
    {
        self.current = Some(context.to_owned());
    }

    /// Leaves no context current.
    pub fn unset_context(&mut self)
        ensures
            final(self)@ == (RepositoryView { current: None, ..old(self)@ }),
    {
        self.current = None;
    }

    /// Adds a context name at the end of the known names.
    pub fn add_context(&mut self, context: &str)
        ensures
            final(self)@ == (RepositoryView {
                contexts: old(self)@.contexts.push(context@),
                ..old(self)@
            }),
    {
        self.contexts.push(context.to_owned());
        assert(self@.contexts =~= old(self)@.contexts.push(context@));
    }

    /// Removes a context name wherever it stands among the known names.
    pub fn remove_context(&mut self, context: &str)
        ensures
            final(self)@ == (RepositoryView {
                contexts: without(old(self)@.contexts, context@),
                ..old(self)@
            }),
    {
        let mut out: Vec<String> = Vec::new();
        let mut i: usize = 0;
        let ghost keep = |x: Seq<char>| x != context@;
        let ghost all = self@.contexts;
        while i < self.contexts.len()
            invariant
                i <= self.contexts@.len(),
                all == self@.contexts,
                *self == *old(self),
                keep == (|x: Seq<char>| x != context@),
                views_of(out@) == all.take(i as int).filter(keep),
            decreases self.contexts@.len() - i,
        {
            proof {
                assert(all.take(i as int + 1) =~= all.take(i as int).push(all[i as int]));
                all.take(i as int).lemma_filter_push(all[i as int], keep);
            }
            if !crate::text::same_text(self.contexts[i].as_str(), context) {
                out.push(self.contexts[i].clone());
                assert(views_of(out@) =~= all.take(i as int).filter(keep).push(all[i as int]));
            }
            i += 1;
        }
        assert(all.take(i as int) =~= all);
        self.contexts = out;
    }

    /// The history, oldest first.
    pub fn get_events(&self) -> (r: &Vec<Event>)
        ensures
            views_of(r@) == self@.events,
    {
        &self.events
    }

    /// The number of events in the history.
    pub fn event_count(&self) -> (r: usize)
        ensures
            r == self@.events.len(),
    {
        self.events.len()
    }

    /// Adds an event at the end of the history, unless the history is full.
    pub fn add_event(&mut self, event: Event)
        requires
            old(self).wf(),
        ensures
            final(self).wf(),
            final(self)@ == (RepositoryView {
                events: appended(old(self)@.events, event@),
                ..old(self)@
            }),
    {
        if self.events.len() < 65535 {
            self.events.push(event);
            assert(self@.events =~= old(self)@.events.push(event@));
        }
    }
}

/// True when the todo `t` belongs to the context `name`.
pub open spec fn in_context(t: TodoView, name: Seq<char>) -> bool {
    t.context == Some(name)
}

/// The todo `t` without its context, if that is `name`.
pub open spec fn out_of_context(t: TodoView, name: Seq<char>) -> TodoView {
    if in_context(t, name) {
        TodoView { context: None, ..t }
    } else {
        t
    }
}

/// The todos of `todos` that belong to the context `name`, in order.
pub open spec fn members(todos: Seq<TodoView>, name: Seq<char>) -> Seq<TodoView> {
    todos.filter(|t: TodoView| in_context(t, name))
}

/// The todos of `todos` that do not belong to the context `name`, in order.
pub open spec fn others(todos: Seq<TodoView>, name: Seq<char>) -> Seq<TodoView> {
    todos.filter(|t: TodoView| !in_context(t, name))
}

/// All of `todos`, those of the context `name` without their context.
pub open spec fn all_out_of_context(todos: Seq<TodoView>, name: Seq<char>) -> Seq<TodoView> {
    Seq::new(todos.len(), |i: int| out_of_context(todos[i], name))
}

/// Every todo is counted once, among the members of a context or among the
/// others.
pub proof fn lemma_members_and_others(todos: Seq<TodoView>, name: Seq<char>)
    ensures
        members(todos, name).len() + others(todos, name).len() == todos.len(),
    decreases todos.len(),
{
    reveal(Seq::filter);
    if todos.len() > 0 {
        lemma_members_and_others(todos.drop_last(), name);
    }
}

/// What is left of todos with unique identifiers has unique identifiers,
/// and every todo that is left was there before.
pub proof fn lemma_filter_keeps_unique(todos: Seq<TodoView>, keep: spec_fn(TodoView) -> bool)
    requires
        unique_ids(todos),
    ensures
        unique_ids(todos.filter(keep)),
        forall|k: int| 0 <= k < todos.filter(keep).len() ==> todos.contains(
            #[trigger] todos.filter(keep)[k],
        ),
    decreases todos.len(),
{
    reveal(Seq::filter);
    let out = todos.filter(keep);
    if todos.len() > 0 {
        let rest = todos.drop_last();
        assert forall|i: int, j: int|
            0 <= i < rest.len() && 0 <= j < rest.len() && i != j implies (#[trigger] rest[i]).id
            != (#[trigger] rest[j]).id by {
            assert(rest[i] == todos[i] && rest[j] == todos[j]);
        }
        lemma_filter_keeps_unique(rest, keep);
        let f = rest.filter(keep);
        assert forall|k: int| 0 <= k < out.len() implies todos.contains(#[trigger] out[k]) by {
            if k < f.len() {
                assert(rest.contains(f[k]));
                let m = rest.index_of(f[k]);
                assert(todos[m] == f[k]);
            } else {
                assert(out[k] == todos.last());
                assert(todos[todos.len() - 1] == out[k]);
            }
        }
        assert forall|i: int, j: int|
            0 <= i < out.len() && 0 <= j < out.len() && i != j implies (#[trigger] out[i]).id != (
            #[trigger] out[j]).id by {
            if i < f.len() && j < f.len() {
                assert(out[i] == f[i] && out[j] == f[j]);
            } else {
                let k = if i < f.len() { i } else { j };
                assert(k < f.len());
                assert(out[k] == f[k]);
                assert(rest.contains(f[k]));
                let m = rest.index_of(f[k]);
                assert(todos[m] == f[k]);
                assert(todos[todos.len() - 1] == todos.last());
            }
        }
    }
}

/// The history after one more event, which a full history does not take.
pub open spec fn appended(events: Seq<EventView>, event: EventView) -> Seq<EventView> {
    if events.len() < u16::MAX {
        events.push(event)
    } else {
        events
    }
}

/// True for the error that says that no todo has the identifier `id`.
pub open spec fn missing(e: Error, id: ID) -> bool {
    e matches Error::NotFound(Some(what)) && what@ == decimal(id.0 as nat)
}

} // verus!
