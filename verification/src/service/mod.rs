use crate::clock::now_millis;
use crate::error::Error;
use crate::model::{
    views_of, Event, EventView, Kind, KindView, Link, Prio, Status, Tags, Todo, TodoView, CSV, ID,
};
use crate::repository::{
    appended, has_id, lemma_replaced, missing, record, Repository, RepositoryView,
};
use crate::text::id_text;
use vstd::prelude::*;

pub mod changeset;
pub mod context;
pub mod engine;
pub mod filter;
pub mod laws;
pub mod order;
pub mod rules;

pub use changeset::{Changeset, ChangesetView};
pub use filter::{
    ContextFilter, ContextFilterView, Filter, FilterView, PruneFilter, StatusFilter,
};

use engine::{establish_block, remove_block};
use order::{listing, sort_todos};
use rules::{
    blocker_of, cascade_step, cascaded, cascades, detached,
    holds_block, holds_forward, lemma_cascade_keeps_ids, lemma_detached_keeps_ids,
    ids_of, lemma_same_ids, linked, removed, removed_all, reports, unblocked,
    unblocked_returns, unlinked, unlinked_returns, updated, Step,
};

verus! {

/// The operations on todos, contexts and links, over one record store.
#[derive(Debug)]
pub struct Service {
    pub repo: Repository,
}

impl View for Service {
    type V = RepositoryView;

    open spec fn view(&self) -> RepositoryView {
        self.repo@
    }
}

/// True when `after` is `before` with one more event of kind `kind`, taken
/// at some time; a full history stays as it is.
pub open spec fn logged(before: Seq<EventView>, after: Seq<EventView>, kind: KindView) -> bool {
    exists|at: i64|
        after == appended(
            before,
            #[trigger] event_of(before.len(), kind, at),
        )
}

/// The event of kind `kind` that is written at time `at` to a history of
/// `count` events.
pub open spec fn event_of(count: nat, kind: KindView, at: i64) -> EventView {
    EventView { id: ID((count + 1) as u16), action: kind.action(), kind, timestamp: at }
}

/// True when, but for the todos and the history, `new` holds what `old`
/// holds.
pub open spec fn kept_rest(old: RepositoryView, new: RepositoryView) -> bool {
    new.next_id == old.next_id && new.current == old.current && new.contexts == old.contexts
}

/// True when the store went from `old` to `new` by `step` and the call
/// returned `r`: after a step that gave up the error reports why and the
/// history is as before; after one that went well the call returned
/// `returns`, and the history has one more event of kind `change`, or is as
/// before if there is none.
pub open spec fn settled(
    old: RepositoryView,
    new: RepositoryView,
    step: Step,
    r: Result<Todo, Error>,
    returns: TodoView,
    change: Option<KindView>,
) -> bool {
    &&& new.todos == step.todos
    &&& kept_rest(old, new)
    &&& match step.failure {
        Some(f) => r is Err && reports(r.unwrap_err(), f) && new.events == old.events,
        None => r is Ok && r.unwrap()@ == returns && match change {
            Some(kind) => logged(old.events, new.events, kind),
            None => new.events == old.events,
        },
    }
}

/// The event that an update of a todo from `before` to `after` leaves.
pub open spec fn update_event(before: TodoView, after: TodoView) -> KindView {
    KindView::UpdateTodo { before, after }
}

/// True when adding a todo at time `created` took the store from `old` to
/// `new` and returned `r`.
pub open spec fn added(
    old: RepositoryView,
    new: RepositoryView,
    created: i64,
    status: Status,
    prio: Prio,
    subject: Seq<char>,
    description: Seq<char>,
    tags: Seq<Seq<char>>,
    r: Result<Todo, Error>,
) -> bool {
    if old.next_id < u16::MAX {
        &&& r is Ok
        &&& r.unwrap()@ == (TodoView {
            id: ID(old.next_id),
            created,
            status,
            prio,
            subject,
            description,
            context: old.current,
            links: Seq::<Link>::empty(),
            tags,
        })
        &&& new.todos == old.todos.push(r.unwrap()@)
        &&& new.next_id == old.next_id + 1
        &&& new.current == old.current
        &&& new.contexts == old.contexts
        &&& logged(old.events, new.events, KindView::AddTodo(r.unwrap()@))
    } else {
        r is Err && r.unwrap_err() is Store && new == old
    }
}

impl Service {
    pub fn new(todos: Repository) -> (r: Self)
        ensures
            r.repo == todos,
    {
        Self { repo: todos }
    }

    /// True when the store of this service is in order.
    pub open spec fn wf(&self) -> bool {
        self.repo.wf()
    }

    /// Writes one event of kind `kind` to the history, with the time of the
    /// call.
    fn log(&mut self, kind: Kind)
        requires
            old(self).wf(),
        ensures
            final(self).wf(),
            final(self)@.todos == old(self)@.todos,
            kept_rest(old(self)@, final(self)@),
            logged(old(self)@.events, final(self)@.events, kind@),
    {
        let at = now_millis();
        let n = self.repo.event_count();
        let id = if n < 65535 {
            ID((n + 1) as u16)
        } else {
            ID(0)
        };
        let event = Event::new(id, kind.action(), kind, at);
        self.repo.add_event(event);
        proof {
            let e = event_of(old(self)@.events.len(), kind@, at);
            assert(self@.events == appended(old(self)@.events, e));
        }
    }

    /// Gets a todo by ID.
    pub fn get_todo(&self, id: &ID) -> (r: Result<Todo, Error>)
        requires
            self.wf(),
        ensures
            has_id(self@.todos, *id) ==> r is Ok && r.unwrap()@ == record(self@.todos, *id),
            !has_id(self@.todos, *id) ==> r is Err && missing(r.unwrap_err(), *id),
    {
        self.repo.get_todo(id)
    }

    /// Lists the todos that pass `filter`, or all of them if there is none,
    /// in the order of a listing.
    pub fn list_todos(&self, filter: Option<Filter>) -> (r: Result<Vec<Todo>, Error>)
        ensures
            r is Ok,
            views_of(r.unwrap()@) == listing(
                match filter {
                    Some(f) => f@.filtered(self@.todos, self@.current),
                    None => self@.todos,
                },
            ),
    {
        let todos = self.repo.get_todos();
        let todos = match filter {
            Some(filter) => {
                let context = self.repo.get_context();
                filter.apply(todos, context)
            },
            None => todos,
        };
        Ok(sort_todos(todos))
    }

    /// Adds a new todo, created at the time `created`, in the current
    /// context and without links, and returns it as it was stored.
    pub fn add_todo_at(
        &mut self,
        created: i64,
        status: Status,
        prio: Prio,
        subject: String,
        description: String,
        tags: Tags,
    ) -> (r: Result<Todo, Error>)
        requires
            old(self).wf(),
        ensures
            final(self).wf(),
            added(
                old(self)@,
                final(self)@,
                created,
                status,
                prio,
                subject@,
                description@,
                tags@,
                r,
            ),
    {
        let context = self.repo.get_context();
        let tmp = Todo::new(
            ID::new(0),
            created,
            status,
            prio,
            subject,
            description,
            tags,
            context,
            CSV::empty(),
        );
        let todo = match self.repo.add_todo(tmp) {
            Ok(t) => t,
            Err(e) => {
                return Err(e);
            },
        };
        self.log(Kind::AddTodo(todo.duplicate()));
        Ok(todo)
    }

    /// Adds a new todo, created now, in the current context and without
    /// links, and returns it as it was stored.
    pub fn add_todo(
        &mut self,
        status: Status,
        prio: Prio,
        subject: String,
        description: String,
        tags: Tags,
    ) -> (r: Result<Todo, Error>)
        requires
            old(self).wf(),
        ensures
            final(self).wf(),
            exists|created: i64| #[trigger]
                added(
                    old(self)@,
                    final(self)@,
                    created,
                    status,
                    prio,
                    subject@,
                    description@,
                    tags@,
                    r,
                ),
    {
        let now = now_millis();
        let r = self.add_todo_at(now, status, prio, subject, description, tags);
        assert(added(old(self)@, self@, now, status, prio, subject@, description@, tags@, r));
        r
    }

    /// Removes the todo `id`, after taking its blocking links from the todos
    /// at their other ends.
    pub fn remove_todo(&mut self, id: &ID) -> (r: Result<(), Error>)
        requires
            old(self).wf(),
        ensures
            final(self).wf(),
            kept_rest(old(self)@, final(self)@),
            !has_id(old(self)@.todos, *id) ==> r is Err && missing(r.unwrap_err(), *id) && final(self)@
                == old(self)@,
            has_id(old(self)@.todos, *id) ==> r is Ok && final(self)@.todos == removed(
                old(self)@.todos,
                *id,
            ) && logged(
                old(self)@.events,
                final(self)@.events,
                KindView::RemoveTodo(record(old(self)@.todos, *id)),
            ),
    {
        let todo = match self.repo.get_todo(id) {
            Ok(t) => t,
            Err(e) => {
                return Err(e);
            },
        };
        let ghost links = todo.links@;
        let mut i: usize = 0;
        assert(links.skip(0) =~= links);
        while i < todo.links.0.len()
            invariant
                i <= todo.links.0@.len(),
                links == todo.links@,
                self.wf(),
                kept_rest(old(self)@, self@),
                self@.events == old(self)@.events,
                detached(self@.todos, *id, links.skip(i as int)) == detached(
                    old(self)@.todos,
                    *id,
                    links,
                ),
            decreases todo.links.0@.len() - i,
        {
            let link = todo.links.0[i];
            proof {
                assert(links.skip(i as int)[0] == links[i as int]);
                assert(links.skip(i as int).drop_first() =~= links.skip(i as int + 1));
            }
            match link {
                Link::Blocks(b) => {
                    let _ = remove_block(&mut self.repo, *id, b);
                },
                Link::BlockedBy(a) => {
                    let _ = remove_block(&mut self.repo, a, *id);
                },
                Link::RelatesTo(_) => {},
            }
            i += 1;
        }
        proof {
            assert(links.skip(i as int) =~= Seq::<Link>::empty());
            lemma_detached_keeps_ids(old(self)@.todos, *id, links);
            lemma_same_ids(old(self)@.todos, self@.todos);
        }
        match self.repo.remove_todo(id) {
            Ok(_) => {},
            Err(e) => {
                return Err(e);
            },
        }
        self.log(Kind::RemoveTodo(todo));
        Ok(())
    }

    /// Removes the todos that `filter` targets, each as `remove_todo` does,
    /// in the order of the store. The history grows by what the removals
    /// write.
    pub fn prune(&mut self, filter: PruneFilter) -> (r: Result<(), Error>)
        requires
            old(self).wf(),
        ensures
            final(self).wf(),
            r is Ok,
            kept_rest(old(self)@, final(self)@),
            final(self)@.todos == removed_all(
                old(self)@.todos,
                ids_of(old(self)@.todos.filter(|t: TodoView| filter.targets(t))),
            ),
            old(self)@.events.is_prefix_of(final(self)@.events),
    {
        let targets = filter.apply(self.repo.get_todos());
        let ghost ids = ids_of(views_of(targets@));
        let mut i: usize = 0;
        assert(ids.skip(0) =~= ids);
        while i < targets.len()
            invariant
                i <= targets@.len(),
                ids == ids_of(views_of(targets@)),
                self.wf(),
                kept_rest(old(self)@, self@),
                old(self)@.events.is_prefix_of(self@.events),
                removed_all(self@.todos, ids.skip(i as int)) == removed_all(old(self)@.todos, ids),
            decreases targets@.len() - i,
        {
            proof {
                assert(ids.skip(i as int)[0] == targets@[i as int].id);
                assert(ids.skip(i as int).drop_first() =~= ids.skip(i as int + 1));
            }
            let ghost before = self@.events;
            let _ = self.remove_todo(&targets[i].id);
            proof {
                if before != self@.events {
                    let k = choose|k: KindView| logged(before, self@.events, k);
                }
            }
            i += 1;
        }
        assert(ids.skip(i as int) =~= Seq::<ID>::empty());
        Ok(())
    }

    /// Updates the todo `id` with what `changeset` sets. A todo that is set
    /// to started lets go of what blocks it, one that is set to done of what
    /// it blocks, before the fields are written.
    pub fn update_todo(&mut self, id: &ID, changeset: Changeset) -> (r: Result<Todo, Error>)
        requires
            old(self).wf(),
        ensures
            final(self).wf(),
            settled(
                old(self)@,
                final(self)@,
                updated(old(self)@.todos, *id, changeset@),
                r,
                record(final(self)@.todos, *id),
                if changeset@.updated {
                    Some(
                        update_event(
                            record(old(self)@.todos, *id),
                            record(final(self)@.todos, *id),
                        ),
                    )
                } else {
                    None
                },
            ),
    {
        let todo = match self.repo.get_todo(id) {
            Ok(t) => t,
            Err(e) => {
                return Err(e);
            },
        };
        if changeset.is_empty() {
            return Ok(todo);
        }
        let earlier = todo.duplicate();
        let ghost links = todo.links@;
        let mut load = false;
        match changeset.status {
            Some(Status::Started) | Some(Status::Done) => {
                load = true;
                let to = changeset.status.unwrap();
                let mut i: usize = 0;
                assert(links.skip(0) =~= links);
                while i < todo.links.0.len()
                    invariant
                        i <= todo.links.0@.len(),
                        links == todo.links@,
                        to == Status::Started || to == Status::Done,
                        changeset@.status == Some(to),
                        changeset@.updated,
                        has_id(old(self)@.todos, *id),
                        links == record(old(self)@.todos, *id).links,
                        self.wf(),
                        kept_rest(old(self)@, self@),
                        self@.events == old(self)@.events,
                        cascaded(self@.todos, *id, links.skip(i as int), to) == cascaded(
                            old(self)@.todos,
                            *id,
                            links,
                            to,
                        ),
                    decreases todo.links.0@.len() - i,
                {
                    let link = todo.links.0[i];
                    proof {
                        assert(links.skip(i as int)[0] == links[i as int]);
                        assert(links.skip(i as int).drop_first() =~= links.skip(i as int + 1));
                    }
                    let ghost prev = self@.todos;
                    let step = match (to, link) {
                        (Status::Started, Link::BlockedBy(a)) => Some(
                            remove_block(&mut self.repo, a, *id),
                        ),
                        (Status::Done, Link::Blocks(b)) => Some(
                            remove_block(&mut self.repo, *id, b),
                        ),
                        _ => None,
                    };
                    proof {
                        let s = cascade_step(prev, *id, link, to);
                        assert(self@.todos == s.todos);
                        assert(cascaded(prev, *id, links.skip(i as int), to) == if s.failure is Some {
                            s
                        } else {
                            cascaded(s.todos, *id, links.skip(i as int + 1), to)
                        });
                    }
                    match step {
                        Some(Err(e)) => {
                            return Err(e);
                        },
                        _ => {},
                    }
                    i += 1;
                }
                proof {
                    assert(links.skip(i as int) =~= Seq::<Link>::empty());
                }
            },
            _ => {},
        }
        proof {
            if cascades(changeset@.status) {
                lemma_cascade_keeps_ids(old(self)@.todos, *id, links, changeset@.status.unwrap());
            }
            lemma_same_ids(old(self)@.todos, self@.todos);
        }
        // If any links were changed the todo is read again.
        let mut todo = if load {
            match self.repo.get_todo(id) {
                Ok(t) => t,
                Err(e) => {
                    return Err(e);
                },
            }
        } else {
            todo
        };
        changeset.apply(&mut todo);
        proof {
            lemma_replaced(self@.todos, todo@);
        }
        match self.repo.replace_todo(&todo) {
            Ok(()) => {},
            Err(e) => {
                return Err(e);
            },
        }
        self.log(Kind::UpdateTodo { before: earlier, after: todo.duplicate() });
        Ok(todo)
    }

    /// Gives the todo `id` the link `link`. A blocking link is written to
    /// both todos, whichever of them `id` is, and makes the blocked one
    /// blocked; a relation is written to `id` alone. Returns the todo that
    /// holds the forward end of the link.
    pub fn link(&mut self, id: ID, link: Link) -> (r: Result<Todo, Error>)
        requires
            old(self).wf(),
        ensures
            final(self).wf(),
            settled(
                old(self)@,
                final(self)@,
                linked(old(self)@.todos, id, link),
                r,
                record(final(self)@.todos, blocker_of(id, link)),
                if holds_forward(old(self)@.todos, id, link) {
                    None
                } else {
                    Some(
                        update_event(
                            record(old(self)@.todos, blocker_of(id, link)),
                            record(final(self)@.todos, blocker_of(id, link)),
                        ),
                    )
                },
            ),
    {
        if link.id() == id {
            return Err(Error::InvalidOperation(String::from_str("cannot link to self")));
        }
        if self.repo.position(id).is_none() {
            return Err(Error::NotFound(Some(id_text(id))));
        }
        let holder = match link {
            Link::Blocks(_) => id,
            Link::BlockedBy(a) => a,
            Link::RelatesTo(_) => id,
        };
        let before = match self.repo.get_todo(&holder) {
            Ok(t) => t,
            Err(_) => {
                return Err(
                    Error::InvalidOperation(
                        String::from_str("cannot link to a todo that does not exist"),
                    ),
                );
            },
        };
        let forward = match link {
            Link::Blocks(b) => Link::Blocks(b),
            Link::BlockedBy(_) => Link::Blocks(id),
            Link::RelatesTo(_) => link,
        };
        let had = before.links.contains(&forward);
        let result = match link {
            Link::Blocks(b) => establish_block(&mut self.repo, id, b),
            Link::BlockedBy(a) => establish_block(&mut self.repo, a, id),
            Link::RelatesTo(_) => self.link_uni(id, link),
        };
        match result {
            Ok(todo) => {
                if !had {
                    self.log(Kind::UpdateTodo { before, after: todo.duplicate() });
                }
                Ok(todo)
            },
            Err(e) => Err(e),
        }
    }

    /// Adds a relation to the todo `id` alone, unless it holds it already.
    fn link_uni(&mut self, id: ID, link: Link) -> (r: Result<Todo, Error>)
        requires
            old(self).wf(),
            has_id(old(self)@.todos, id),
            link is RelatesTo,
            link.target() != id,
        ensures
            final(self).wf(),
            final(self)@ == (RepositoryView {
                todos: linked(old(self)@.todos, id, link).todos,
                ..old(self)@
            }),
            r is Ok,
            r.unwrap()@ == record(final(self)@.todos, id),
    {
        let mut todo = match self.repo.get_todo(&id) {
            Ok(t) => t,
            Err(e) => {
                return Err(e);
            },
        };
        todo.links.push_not_exists(link);
        proof {
            lemma_replaced(self@.todos, todo@);
        }
        match self.repo.replace_todo(&todo) {
            Ok(()) => {},
            Err(e) => {
                return Err(e);
            },
        }
        Ok(todo)
    }

    /// Takes the link `link` from the todo `id`. A blocking link is taken
    /// from both todos, whichever of them `id` is; a relation from `id`
    /// alone. Returns the todo that held the forward end of the link.
    pub fn unlink(&mut self, id: ID, link: Link) -> (r: Result<Todo, Error>)
        requires
            old(self).wf(),
        ensures
            final(self).wf(),
            settled(
                old(self)@,
                final(self)@,
                unlinked(old(self)@.todos, id, link),
                r,
                unlinked_returns(old(self)@.todos, id, link),
                if holds_forward(old(self)@.todos, id, link) {
                    Some(
                        update_event(
                            record(old(self)@.todos, blocker_of(id, link)),
                            unlinked_returns(old(self)@.todos, id, link),
                        ),
                    )
                } else {
                    None
                },
            ),
    {
        match link {
            Link::Blocks(blocked) => self.unlink_block(id, blocked),
            Link::BlockedBy(blocker) => self.unlink_block(blocker, id),
            Link::RelatesTo(_) => self.unlink_uni(id, link),
        }
    }

    /// Takes the blocking link between `blocker` and `blocked` from both
    /// todos; the blocked todo is new again when nothing blocks it any more.
    /// Returns the blocker as it was written.
    pub fn unlink_block(&mut self, blocker: ID, blocked: ID) -> (r: Result<Todo, Error>)
        requires
            old(self).wf(),
        ensures
            final(self).wf(),
            settled(
                old(self)@,
                final(self)@,
                unblocked(old(self)@.todos, blocker, blocked),
                r,
                unblocked_returns(old(self)@.todos, blocker, blocked),
                if holds_block(old(self)@.todos, blocker, blocked) {
                    Some(
                        update_event(
                            record(old(self)@.todos, blocker),
                            unblocked_returns(old(self)@.todos, blocker, blocked),
                        ),
                    )
                } else {
                    None
                },
            ),
    {
        let before = match self.repo.get_todo(&blocker) {
            Ok(t) => t,
            Err(e) => {
                return Err(e);
            },
        };
        let had = before.links.contains(&Link::Blocks(blocked));
        match remove_block(&mut self.repo, blocker, blocked) {
            Ok(todo) => {
                if had {
                    self.log(Kind::UpdateTodo { before, after: todo.duplicate() });
                }
                Ok(todo)
            },
            Err(e) => Err(e),
        }
    }

    /// Takes a relation from the todo `id` alone.
    fn unlink_uni(&mut self, id: ID, link: Link) -> (r: Result<Todo, Error>)
        requires
            old(self).wf(),
            link is RelatesTo,
        ensures
            final(self).wf(),
            settled(
                old(self)@,
                final(self)@,
                unlinked(old(self)@.todos, id, link),
                r,
                unlinked_returns(old(self)@.todos, id, link),
                if holds_forward(old(self)@.todos, id, link) {
                    Some(
                        update_event(
                            record(old(self)@.todos, id),
                            unlinked_returns(old(self)@.todos, id, link),
                        ),
                    )
                } else {
                    None
                },
            ),
    {
        let before = match self.repo.get_todo(&id) {
            Ok(t) => t,
            Err(e) => {
                return Err(e);
            },
        };
        let had = before.links.contains(&link);
        let mut todo = before.duplicate();
        todo.links = todo.links.remove(&link);
        proof {
            lemma_replaced(self@.todos, todo@);
        }
        match self.repo.replace_todo(&todo) {
            Ok(()) => {},
            Err(e) => {
                return Err(e);
            },
        }
        if had {
            self.log(Kind::UpdateTodo { before, after: todo.duplicate() });
        }
        Ok(todo)
    }
}

} // verus!
