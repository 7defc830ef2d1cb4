//! What the operations of the service do to the todos of the store, as
//! functions on plain values, and what follows from that.
use crate::error::Error;
use crate::model::{with_once, without, Link, Status, TodoView, ID};
use crate::repository::{
    has_id, index_of_id, lemma_index_of_id, lemma_replaced, missing, record, replaced, unique_ids,
};
use crate::service::changeset::ChangesetView;
use vstd::prelude::*;

verus! {

/// Why an operation of the service gave up.
pub enum Failure {
    /// No todo has this identifier.
    NotFound(ID),
    /// The link points to the todo that holds it.
    SelfLink,
    /// The todo that is to block is itself blocked by the other.
    Circular,
    /// The link points to a todo that does not exist.
    UnknownTarget(ID),
}

/// The todos after an operation, and why it gave up if it did. An operation
/// that gave up may have changed a todo before.
pub struct Step {
    pub todos: Seq<TodoView>,
    pub failure: Option<Failure>,
}

/// The step that went well and left `todos`.
pub open spec fn went_well(todos: Seq<TodoView>) -> Step {
    Step { todos, failure: None }
}

/// The step that gave up on `failure` and left `todos`.
pub open spec fn gave_up(todos: Seq<TodoView>, failure: Failure) -> Step {
    Step { todos, failure: Some(failure) }
}

/// The message of the error for a link to oneself.
pub open spec fn self_link_message() -> Seq<char> {
    "cannot link to self"@
}

/// The message of the error for a circular link.
pub open spec fn circular_message() -> Seq<char> {
    "circular link not allowed"@
}

/// The message of the error for a link to a todo that does not exist.
pub open spec fn unknown_target_message() -> Seq<char> {
    "cannot link to a todo that does not exist"@
}

/// True when the error `e` is the one that reports `f`.
pub open spec fn reports(e: Error, f: Failure) -> bool {
    match f {
        Failure::NotFound(id) => missing(e, id),
        Failure::SelfLink => e matches Error::InvalidOperation(m) && m@ == self_link_message(),
        Failure::Circular => e matches Error::InvalidOperation(m) && m@ == circular_message(),
        Failure::UnknownTarget(_) => e matches Error::InvalidOperation(m) && m@
            == unknown_target_message(),
    }
}

/// The todo `t` holding `l`, once.
pub open spec fn link_added(t: TodoView, l: Link) -> TodoView {
    TodoView { links: with_once(t.links, l), ..t }
}

/// The todo `t` without `l`.
pub open spec fn link_dropped(t: TodoView, l: Link) -> TodoView {
    TodoView { links: without(t.links, l), ..t }
}

/// True when one of `links` says that its holder is blocked.
pub open spec fn has_blocker(links: Seq<Link>) -> bool {
    exists|i: int| 0 <= i < links.len() && #[trigger] links[i] is BlockedBy
}

/// The blocked todo `t` after the blocker `blocker` let go of it: the link
/// is gone, and with no blocker left the todo is new again.
pub open spec fn released(t: TodoView, blocker: ID) -> TodoView {
    let b = link_dropped(t, Link::BlockedBy(blocker));
    if has_blocker(b.links) {
        b
    } else {
        TodoView { status: Status::New, ..b }
    }
}

/// The blocked todo `t` after `blocker` came to block it.
pub open spec fn held(t: TodoView, blocker: ID) -> TodoView {
    TodoView { status: Status::Blocked, ..link_added(t, Link::BlockedBy(blocker)) }
}

/// Both ends of a new blocking link written: first the blocker, then the
/// blocked todo, which becomes blocked.
pub open spec fn block_established(todos: Seq<TodoView>, blocker: ID, blocked: ID) -> Seq<
    TodoView,
> {
    let s1 = replaced(todos, link_added(record(todos, blocker), Link::Blocks(blocked)));
    replaced(s1, held(record(s1, blocked), blocker))
}

/// What establishing a blocking link does: nothing if the blocker holds the
/// link already; it gives up on a circular link and on a todo that does not
/// exist.
pub open spec fn blocked_step(todos: Seq<TodoView>, blocker: ID, blocked: ID) -> Step {
    if !has_id(todos, blocker) {
        gave_up(todos, Failure::UnknownTarget(blocker))
    } else if record(todos, blocker).links.contains(Link::Blocks(blocked)) {
        went_well(todos)
    } else if record(todos, blocker).links.contains(Link::BlockedBy(blocked)) {
        gave_up(todos, Failure::Circular)
    } else if !has_id(todos, blocked) {
        gave_up(todos, Failure::UnknownTarget(blocked))
    } else {
        went_well(block_established(todos, blocker, blocked))
    }
}

/// The todo that holds the `Blocks` end when the todo `id` is given `link`;
/// for a relation, `id` itself.
pub open spec fn blocker_of(id: ID, link: Link) -> ID {
    match link {
        Link::Blocks(_) => id,
        Link::BlockedBy(a) => a,
        Link::RelatesTo(_) => id,
    }
}

/// The todo that holds the `BlockedBy` end when the todo `id` is given
/// `link`; for a relation, `id` itself.
pub open spec fn blocked_of(id: ID, link: Link) -> ID {
    match link {
        Link::Blocks(b) => b,
        Link::BlockedBy(_) => id,
        Link::RelatesTo(_) => id,
    }
}

/// What giving the todo `id` the link `link` does.
pub open spec fn linked(todos: Seq<TodoView>, id: ID, link: Link) -> Step {
    if link.target() == id {
        gave_up(todos, Failure::SelfLink)
    } else if !has_id(todos, id) {
        gave_up(todos, Failure::NotFound(id))
    } else if link is RelatesTo {
        went_well(replaced(todos, link_added(record(todos, id), link)))
    } else {
        blocked_step(todos, blocker_of(id, link), blocked_of(id, link))
    }
}

/// The link that the todo `blocker_of(id, link)` holds once the todo `id`
/// was given `link`.
pub open spec fn forward_link(id: ID, link: Link) -> Link {
    match link {
        Link::Blocks(b) => Link::Blocks(b),
        Link::BlockedBy(_) => Link::Blocks(id),
        Link::RelatesTo(_) => link,
    }
}

/// True when the holder of the forward end of `link` holds it already.
pub open spec fn holds_forward(todos: Seq<TodoView>, id: ID, link: Link) -> bool {
    has_id(todos, blocker_of(id, link)) && record(todos, blocker_of(id, link)).links.contains(
        forward_link(id, link),
    )
}

/// True when removing the blocking link finds it at the blocker.
pub open spec fn holds_block(todos: Seq<TodoView>, blocker: ID, blocked: ID) -> bool {
    has_id(todos, blocker) && record(todos, blocker).links.contains(Link::Blocks(blocked))
}

/// What removing a blocking link does: nothing if the blocker does not hold
/// it; else the blocker lets go first, then the blocked todo, which is new
/// again when no blocker is left. When the blocked todo does not exist the
/// blocker has let go all the same.
pub open spec fn unblocked(todos: Seq<TodoView>, blocker: ID, blocked: ID) -> Step {
    if !has_id(todos, blocker) {
        gave_up(todos, Failure::NotFound(blocker))
    } else if !record(todos, blocker).links.contains(Link::Blocks(blocked)) {
        went_well(todos)
    } else {
        let s1 = replaced(todos, link_dropped(record(todos, blocker), Link::Blocks(blocked)));
        if !has_id(todos, blocked) {
            gave_up(s1, Failure::NotFound(blocked))
        } else {
            went_well(replaced(s1, released(record(s1, blocked), blocker)))
        }
    }
}

/// The todo that removing a blocking link hands back: the blocker as it was
/// written.
pub open spec fn unblocked_returns(todos: Seq<TodoView>, blocker: ID, blocked: ID) -> TodoView {
    if holds_block(todos, blocker, blocked) {
        link_dropped(record(todos, blocker), Link::Blocks(blocked))
    } else {
        record(todos, blocker)
    }
}

/// What taking the link `link` from the todo `id` does.
pub open spec fn unlinked(todos: Seq<TodoView>, id: ID, link: Link) -> Step {
    if link is RelatesTo {
        if !has_id(todos, id) {
            gave_up(todos, Failure::NotFound(id))
        } else {
            went_well(replaced(todos, link_dropped(record(todos, id), link)))
        }
    } else {
        unblocked(todos, blocker_of(id, link), blocked_of(id, link))
    }
}

/// The todo that taking the link `link` from the todo `id` hands back: the
/// holder of the forward end as it was written.
pub open spec fn unlinked_returns(todos: Seq<TodoView>, id: ID, link: Link) -> TodoView {
    if link is RelatesTo {
        link_dropped(record(todos, id), link)
    } else {
        unblocked_returns(todos, blocker_of(id, link), blocked_of(id, link))
    }
}

/// What one link of the todo `id` leads to when the todo is set to `to`: a
/// todo that is started lets go of what blocks it, one that is done of what
/// it blocks.
pub open spec fn cascade_step(todos: Seq<TodoView>, id: ID, link: Link, to: Status) -> Step {
    match (to, link) {
        (Status::Started, Link::BlockedBy(a)) => unblocked(todos, a, id),
        (Status::Done, Link::Blocks(b)) => unblocked(todos, id, b),
        _ => went_well(todos),
    }
}

/// The steps for `links`, one after the other, up to the first that gives
/// up.
pub open spec fn cascaded(todos: Seq<TodoView>, id: ID, links: Seq<Link>, to: Status) -> Step
    decreases links.len(),
{
    if links.len() == 0 {
        went_well(todos)
    } else {
        let s = cascade_step(todos, id, links[0], to);
        if s.failure is Some {
            s
        } else {
            cascaded(s.todos, id, links.drop_first(), to)
        }
    }
}

/// True when setting a todo to this status removes blocking links first.
pub open spec fn cascades(to: Option<Status>) -> bool {
    to == Some(Status::Started) || to == Some(Status::Done)
}

/// What updating the todo `id` with the changeset `cs` does: the blocking
/// links that the new status ends are removed, going by the links that the
/// todo held before; then the fields are written.
pub open spec fn updated(todos: Seq<TodoView>, id: ID, cs: ChangesetView) -> Step {
    if !has_id(todos, id) {
        gave_up(todos, Failure::NotFound(id))
    } else if !cs.updated {
        went_well(todos)
    } else {
        let s = if cascades(cs.status) {
            cascaded(todos, id, record(todos, id).links, cs.status.unwrap())
        } else {
            went_well(todos)
        };
        if s.failure is Some {
            s
        } else {
            went_well(replaced(s.todos, cs.applied(record(s.todos, id))))
        }
    }
}

/// What one link of the todo `id` leads to when the todo is removed: the
/// other end of a blocking link is taken away, as far as it is there.
pub open spec fn detach_step(todos: Seq<TodoView>, id: ID, link: Link) -> Seq<TodoView> {
    match link {
        Link::Blocks(b) => unblocked(todos, id, b).todos,
        Link::BlockedBy(a) => unblocked(todos, a, id).todos,
        Link::RelatesTo(_) => todos,
    }
}

/// The todos after the todo `id` let go of all of `links`.
pub open spec fn detached(todos: Seq<TodoView>, id: ID, links: Seq<Link>) -> Seq<TodoView>
    decreases links.len(),
{
    if links.len() == 0 {
        todos
    } else {
        detached(detach_step(todos, id, links[0]), id, links.drop_first())
    }
}

/// The todos after the todo `id` was removed: its blocking links are taken
/// from the other todos first.
pub open spec fn removed(todos: Seq<TodoView>, id: ID) -> Seq<TodoView> {
    let s = detached(todos, id, record(todos, id).links);
    s.remove(index_of_id(s, id))
}

/// The todos after those of `ids` that exist were removed, one after the
/// other.
pub open spec fn removed_all(todos: Seq<TodoView>, ids: Seq<ID>) -> Seq<TodoView>
    decreases ids.len(),
{
    if ids.len() == 0 {
        todos
    } else if has_id(todos, ids[0]) {
        removed_all(removed(todos, ids[0]), ids.drop_first())
    } else {
        removed_all(todos, ids.drop_first())
    }
}

/// The identifiers of `todos`, in order.
pub open spec fn ids_of(todos: Seq<TodoView>) -> Seq<ID> {
    Seq::new(todos.len(), |i: int| todos[i].id)
}

/// True when both hold the same identifiers at the same places.
pub open spec fn same_ids(a: Seq<TodoView>, b: Seq<TodoView>) -> bool {
    ids_of(a) == ids_of(b)
}

/// Todos with the same identifiers at the same places answer alike when
/// asked for an identifier.
pub proof fn lemma_same_ids(a: Seq<TodoView>, b: Seq<TodoView>)
    requires
        unique_ids(a),
        same_ids(a, b),
    ensures
        unique_ids(b),
        forall|id: ID| has_id(b, id) == has_id(a, id),
        forall|id: ID| has_id(a, id) ==> index_of_id(b, id) == index_of_id(a, id),
        a.len() == b.len(),
{
    assert(ids_of(a).len() == ids_of(b).len());
    assert forall|i: int| 0 <= i < a.len() implies (#[trigger] a[i]).id == b[i].id by {
        assert(ids_of(a)[i] == ids_of(b)[i]);
    }
    assert forall|i: int| 0 <= i < a.len() implies (#[trigger] b[i]).id == a[i].id by {
        assert(ids_of(a)[i] == ids_of(b)[i]);
    }
    assert forall|id: ID| has_id(b, id) == has_id(a, id) by {
        if has_id(a, id) {
            let i = index_of_id(a, id);
            assert(b[i].id == id);
        }
        if has_id(b, id) {
            let i = index_of_id(b, id);
            assert(a[i].id == id);
        }
    }
    assert forall|id: ID| has_id(a, id) implies index_of_id(b, id) == index_of_id(a, id) by {
        let i = index_of_id(a, id);
        assert(b[i].id == id);
        lemma_index_of_id(b, i);
    }
}

/// Overwriting a todo under its own identifier keeps all identifiers.
pub proof fn lemma_replaced_same_ids(todos: Seq<TodoView>, t: TodoView)
    requires
        unique_ids(todos),
        has_id(todos, t.id),
    ensures
        same_ids(todos, replaced(todos, t)),
        unique_ids(replaced(todos, t)),
{
    lemma_replaced(todos, t);
    assert(ids_of(todos) =~= ids_of(replaced(todos, t)));
}

/// Neither adding nor removing a blocking link adds, removes or moves a
/// todo.
pub proof fn lemma_links_keep_ids(todos: Seq<TodoView>, blocker: ID, blocked: ID)
    requires
        unique_ids(todos),
    ensures
        same_ids(todos, unblocked(todos, blocker, blocked).todos),
        unique_ids(unblocked(todos, blocker, blocked).todos),
        same_ids(todos, blocked_step(todos, blocker, blocked).todos),
        unique_ids(blocked_step(todos, blocker, blocked).todos),
{
    if has_id(todos, blocker) {
        let s1 = replaced(todos, link_dropped(record(todos, blocker), Link::Blocks(blocked)));
        lemma_replaced(todos, link_dropped(record(todos, blocker), Link::Blocks(blocked)));
        lemma_replaced_same_ids(todos, link_dropped(record(todos, blocker), Link::Blocks(blocked)));
        if has_id(todos, blocked) {
            lemma_replaced(s1, released(record(s1, blocked), blocker));
            lemma_replaced_same_ids(s1, released(record(s1, blocked), blocker));
        }
        let a1 = replaced(todos, link_added(record(todos, blocker), Link::Blocks(blocked)));
        lemma_replaced(todos, link_added(record(todos, blocker), Link::Blocks(blocked)));
        lemma_replaced_same_ids(todos, link_added(record(todos, blocker), Link::Blocks(blocked)));
        if has_id(todos, blocked) {
            lemma_replaced(a1, held(record(a1, blocked), blocker));
            lemma_replaced_same_ids(a1, held(record(a1, blocked), blocker));
        }
    }
}

/// No step of a cascade adds, removes or moves a todo.
pub proof fn lemma_cascade_keeps_ids(todos: Seq<TodoView>, id: ID, links: Seq<Link>, to: Status)
    requires
        unique_ids(todos),
    ensures
        same_ids(todos, cascaded(todos, id, links, to).todos),
        unique_ids(cascaded(todos, id, links, to).todos),
    decreases links.len(),
{
    if links.len() > 0 {
        let s = cascade_step(todos, id, links[0], to);
        match links[0] {
            Link::Blocks(b) => lemma_links_keep_ids(todos, id, b),
            Link::BlockedBy(a) => lemma_links_keep_ids(todos, a, id),
            Link::RelatesTo(_) => {},
        }
        if s.failure is None {
            lemma_cascade_keeps_ids(s.todos, id, links.drop_first(), to);
        }
    }
}

/// Letting go of links adds, removes or moves no todo.
pub proof fn lemma_detached_keeps_ids(todos: Seq<TodoView>, id: ID, links: Seq<Link>)
    requires
        unique_ids(todos),
    ensures
        same_ids(todos, detached(todos, id, links)),
        unique_ids(detached(todos, id, links)),
    decreases links.len(),
{
    if links.len() > 0 {
        match links[0] {
            Link::Blocks(b) => lemma_links_keep_ids(todos, id, b),
            Link::BlockedBy(a) => lemma_links_keep_ids(todos, a, id),
            Link::RelatesTo(_) => {},
        }
        lemma_detached_keeps_ids(detach_step(todos, id, links[0]), id, links.drop_first());
    }
}

} // verus!
