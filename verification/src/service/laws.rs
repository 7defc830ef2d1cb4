//! What holds of the operations of the service, whatever the store holds.
use crate::model::{with_once, without, Link, Status, TodoView, ID};
use crate::repository::{
    all_out_of_context, has_id, in_context, lemma_members_and_others, lemma_replaced, members,
    others, record, replaced, unique_ids,
};
use crate::service::changeset::ChangesetView;
use crate::repository::{index_of_id, lemma_index_of_id};
use crate::service::rules::{detach_step, detached, lemma_detached_keeps_ids, removed};
use crate::service::rules::{
    block_established, blocked_of, blocked_step, blocker_of, cascade_step, cascaded, cascades,
    gave_up, has_blocker, held, holds_block, lemma_cascade_keeps_ids, lemma_links_keep_ids,
    lemma_same_ids, link_added, link_dropped, linked, released, unblocked, unlinked, updated,
    went_well, Failure,
};
use vstd::prelude::*;

verus! {

/// What is left after taking a value out holds it no more, and holds every
/// other value just when it was held before.
pub proof fn lemma_without<V>(s: Seq<V>, v: V)
    ensures
        !without(s, v).contains(v),
        forall|x: V| x != v ==> (#[trigger] without(s, v).contains(x) <==> s.contains(x)),
        forall|x: V| #[trigger] without(s, v).contains(x) ==> s.contains(x),
{
    let keep = |x: V| x != v;
    if s.filter(keep).contains(v) {
        let i = s.filter(keep).index_of(v);
        s.lemma_filter_pred(keep, i);
    }
    assert forall|x: V| #[trigger] s.filter(keep).contains(x) implies s.contains(x) by {
        s.lemma_filter_contains_rev(keep, x);
    }
    assert forall|x: V| x != v implies (#[trigger] s.filter(keep).contains(x) <==> s.contains(
        x,
    )) by {
        if s.contains(x) {
            let i = s.index_of(x);
            s.lemma_filter_contains(keep, i);
        }
    }
}

/// Adding a value once makes it held, keeps what was held, and makes no
/// value occur twice that did not before.
pub proof fn lemma_with_once<V>(s: Seq<V>, v: V)
    ensures
        with_once(s, v).contains(v),
        forall|x: V| s.contains(x) ==> #[trigger] with_once(s, v).contains(x),
        forall|x: V| #[trigger] with_once(s, v).contains(x) ==> x == v || s.contains(x),
        s.no_duplicates() ==> with_once(s, v).no_duplicates(),
{
    if !s.contains(v) {
        let t = s.push(v);
        assert(t[s.len() as int] == v);
        assert forall|x: V| s.contains(x) implies #[trigger] t.contains(x) by {
            let i = s.index_of(x);
            assert(t[i] == x);
        }
        assert forall|x: V| #[trigger] t.contains(x) implies x == v || s.contains(x) by {
            let i = t.index_of(x);
            if i < s.len() {
                assert(s[i] == x);
            }
        }
        if s.no_duplicates() {
            assert forall|i: int, j: int| 0 <= i < t.len() && 0 <= j < t.len() && i != j implies t[i]
                != t[j] by {
                if i < s.len() && j < s.len() {
                } else if i < s.len() {
                    assert(s.contains(s[i]));
                } else {
                    assert(s.contains(s[j]));
                }
            }
        }
    }
}

/// True when `blocker` is the only todo that `links` names as a blocker.
pub open spec fn only_blocker(links: Seq<Link>, blocker: ID) -> bool {
    forall|i: int| 0 <= i < links.len() && (#[trigger] links[i]) is BlockedBy ==> links[i]
        == Link::BlockedBy(blocker)
}

/// A todo that only `blocker` blocked has no blocker left once that link is
/// gone.
pub proof fn lemma_last_blocker_gone(links: Seq<Link>, blocker: ID)
    requires
        only_blocker(links, blocker),
    ensures
        !has_blocker(without(links, Link::BlockedBy(blocker))),
{
    let rest = without(links, Link::BlockedBy(blocker));
    lemma_without(links, Link::BlockedBy(blocker));
    if has_blocker(rest) {
        let i = choose|i: int| 0 <= i < rest.len() && #[trigger] rest[i] is BlockedBy;
        assert(rest.contains(rest[i]));
        assert(links.contains(rest[i]));
        let j = links.index_of(rest[i]);
        assert(links[j] is BlockedBy);
    }
}

/// Taking a link away leaves no blocker where there was none.
pub proof fn lemma_no_blocker_stays(links: Seq<Link>, l: Link)
    requires
        !has_blocker(links),
    ensures
        !has_blocker(without(links, l)),
{
    let rest = without(links, l);
    lemma_without(links, l);
    if has_blocker(rest) {
        let i = choose|i: int| 0 <= i < rest.len() && #[trigger] rest[i] is BlockedBy;
        assert(rest.contains(rest[i]));
        let j = links.index_of(rest[i]);
        assert(links[j] is BlockedBy);
    }
}

/// What removing a blocking link leaves of the todos: the blocker without
/// the link, the blocked todo released, every other todo as it was.
pub proof fn lemma_unblocked_records(todos: Seq<TodoView>, blocker: ID, blocked: ID, other: ID)
    requires
        unique_ids(todos),
        has_id(todos, other),
        unblocked(todos, blocker, blocked).failure is None,
    ensures
        has_id(unblocked(todos, blocker, blocked).todos, other),
        !holds_block(todos, blocker, blocked) ==> unblocked(todos, blocker, blocked).todos == todos,
        holds_block(todos, blocker, blocked) && other != blocker && other != blocked ==> record(
            unblocked(todos, blocker, blocked).todos,
            other,
        ) == record(todos, other),
        holds_block(todos, blocker, blocked) && other == blocker && blocker != blocked ==> record(
            unblocked(todos, blocker, blocked).todos,
            other,
        ) == link_dropped(record(todos, blocker), Link::Blocks(blocked)),
        holds_block(todos, blocker, blocked) && other == blocked && blocker != blocked ==> record(
            unblocked(todos, blocker, blocked).todos,
            other,
        ) == released(record(todos, blocked), blocker),
        holds_block(todos, blocker, blocked) && other == blocked && blocker == blocked ==> record(
            unblocked(todos, blocker, blocked).todos,
            other,
        ) == released(link_dropped(record(todos, blocker), Link::Blocks(blocked)), blocker),
{
    if holds_block(todos, blocker, blocked) {
        let first = link_dropped(record(todos, blocker), Link::Blocks(blocked));
        let s1 = replaced(todos, first);
        lemma_replaced(todos, first);
        lemma_replaced(s1, released(record(s1, blocked), blocker));
    }
}

/// What establishing a new blocking link leaves of the todos: the blocker
/// with the link, the blocked todo held, every other todo as it was.
pub proof fn lemma_established_records(todos: Seq<TodoView>, blocker: ID, blocked: ID, other: ID)
    requires
        unique_ids(todos),
        has_id(todos, blocker),
        has_id(todos, blocked),
        has_id(todos, other),
        blocker != blocked,
    ensures
        has_id(block_established(todos, blocker, blocked), other),
        other != blocker && other != blocked ==> record(
            block_established(todos, blocker, blocked),
            other,
        ) == record(todos, other),
        record(block_established(todos, blocker, blocked), blocker) == link_added(
            record(todos, blocker),
            Link::Blocks(blocked),
        ),
        record(block_established(todos, blocker, blocked), blocked) == held(
            record(todos, blocked),
            blocker,
        ),
{
    let first = link_added(record(todos, blocker), Link::Blocks(blocked));
    let s1 = replaced(todos, first);
    lemma_replaced(todos, first);
    lemma_replaced(s1, held(record(s1, blocked), blocker));
}

/// After a link that says that `a` blocks `b` was given with success, `a`
/// holds `Blocks(b)`; and `b` exists, holds `BlockedBy(a)` and is blocked,
/// unless `a` held the link before while `b` did not exist, did not hold
/// its end or was not blocked.
pub proof fn link_writes_both_ends(todos: Seq<TodoView>, a: ID, b: ID)
    requires
        unique_ids(todos),
        linked(todos, a, Link::Blocks(b)).failure is None,
        holds_block(todos, a, b) ==> has_id(todos, b) && record(todos, b).links.contains(
            Link::BlockedBy(a),
        ) && record(todos, b).status == Status::Blocked,
    ensures
        has_id(linked(todos, a, Link::Blocks(b)).todos, a),
        has_id(linked(todos, a, Link::Blocks(b)).todos, b),
        record(linked(todos, a, Link::Blocks(b)).todos, a).links.contains(Link::Blocks(b)),
        record(linked(todos, a, Link::Blocks(b)).todos, b).links.contains(Link::BlockedBy(a)),
        record(linked(todos, a, Link::Blocks(b)).todos, b).status == Status::Blocked,
{
    if !holds_block(todos, a, b) {
        lemma_established_records(todos, a, b, a);
        lemma_established_records(todos, a, b, b);
        lemma_with_once(record(todos, a).links, Link::Blocks(b));
        lemma_with_once(record(todos, b).links, Link::BlockedBy(a));
    }
}

/// The same link given from the other side, as `BlockedBy(a)` to `b`, does
/// what `Blocks(b)` given to `a` does, where both todos exist.
pub proof fn link_from_either_side(todos: Seq<TodoView>, a: ID, b: ID)
    requires
        has_id(todos, a),
        has_id(todos, b),
    ensures
        linked(todos, b, Link::BlockedBy(a)) == linked(todos, a, Link::Blocks(b)),
        unlinked(todos, b, Link::BlockedBy(a)) == unlinked(todos, a, Link::Blocks(b)),
{
}

/// A link given a second time changes nothing, and a todo whose links held
/// no link twice holds none twice afterwards.
pub proof fn link_twice_is_once(todos: Seq<TodoView>, id: ID, link: Link)
    requires
        unique_ids(todos),
        linked(todos, id, link).failure is None,
    ensures
        linked(linked(todos, id, link).todos, id, link) == went_well(
            linked(todos, id, link).todos,
        ),
        forall|other: ID|
            has_id(todos, other) && record(todos, other).links.no_duplicates() ==> (
            #[trigger] record(linked(todos, id, link).todos, other)).links.no_duplicates(),
{
    let after = linked(todos, id, link).todos;
    match link {
        Link::RelatesTo(_) => {
            lemma_replaced(todos, link_added(record(todos, id), link));
            lemma_with_once(record(todos, id).links, link);
            assert(replaced(after, link_added(record(after, id), link)) =~= after);
        },
        Link::Blocks(b) => {
            lemma_block_twice(todos, id, b);
            crate::service::rules::lemma_links_keep_ids(todos, id, b);
            crate::service::rules::lemma_same_ids(todos, after);
        },
        Link::BlockedBy(a) => {
            lemma_block_twice(todos, a, id);
            crate::service::rules::lemma_links_keep_ids(todos, a, id);
            crate::service::rules::lemma_same_ids(todos, after);
        },
    }
    assert forall|other: ID|
        has_id(todos, other) && record(todos, other).links.no_duplicates() implies (
    #[trigger] record(after, other)).links.no_duplicates() by {
        match link {
            Link::RelatesTo(_) => {
                lemma_with_once(record(todos, id).links, link);
            },
            Link::Blocks(b) => {
                lemma_block_keeps_single(todos, id, b, other);
            },
            Link::BlockedBy(a) => {
                lemma_block_keeps_single(todos, a, id, other);
            },
        }
    }
}

/// Establishing a blocking link that was established is a step that goes
/// well and changes nothing.
proof fn lemma_block_twice(todos: Seq<TodoView>, blocker: ID, blocked: ID)
    requires
        unique_ids(todos),
        blocker != blocked,
        blocked_step(todos, blocker, blocked).failure is None,
    ensures
        blocked_step(blocked_step(todos, blocker, blocked).todos, blocker, blocked) == went_well(
            blocked_step(todos, blocker, blocked).todos,
        ),
{
    if !holds_block(todos, blocker, blocked) {
        lemma_established_records(todos, blocker, blocked, blocker);
        lemma_with_once(record(todos, blocker).links, Link::Blocks(blocked));
    }
}

/// Establishing a blocking link makes no link occur twice at any todo.
proof fn lemma_block_keeps_single(todos: Seq<TodoView>, blocker: ID, blocked: ID, other: ID)
    requires
        unique_ids(todos),
        blocker != blocked,
        has_id(todos, other),
        record(todos, other).links.no_duplicates(),
        blocked_step(todos, blocker, blocked).failure is None,
    ensures
        record(blocked_step(todos, blocker, blocked).todos, other).links.no_duplicates(),
{
    if !holds_block(todos, blocker, blocked) {
        lemma_established_records(todos, blocker, blocked, other);
        lemma_with_once(record(todos, blocker).links, Link::Blocks(blocked));
        lemma_with_once(record(todos, blocked).links, Link::BlockedBy(blocker));
    }
}

/// After `a` came to block `b`, a link that says that `b` blocks `a` is
/// refused as circular and changes nothing; this needs that `b` exists and
/// holds its end of the first link, and did not hold `Blocks(a)` before.
pub proof fn reverse_block_is_refused(todos: Seq<TodoView>, a: ID, b: ID)
    requires
        unique_ids(todos),
        linked(todos, a, Link::Blocks(b)).failure is None,
        has_id(todos, b),
        !record(todos, b).links.contains(Link::Blocks(a)),
        holds_block(todos, a, b) ==> record(todos, b).links.contains(Link::BlockedBy(a)),
    ensures
        linked(linked(todos, a, Link::Blocks(b)).todos, b, Link::Blocks(a)) == gave_up(
            linked(todos, a, Link::Blocks(b)).todos,
            Failure::Circular,
        ),
{
    if !holds_block(todos, a, b) {
        lemma_established_records(todos, a, b, b);
        lemma_with_once(record(todos, b).links, Link::BlockedBy(a));
    }
}

/// A link to the todo that is to hold it is refused and changes nothing.
pub proof fn self_link_is_refused(todos: Seq<TodoView>, id: ID, link: Link)
    requires
        link.target() == id,
    ensures
        linked(todos, id, link) == gave_up(todos, Failure::SelfLink),
{
}

/// After `a` came to block `b`, taking the link away goes well where `b`
/// exists; then `a` holds `Blocks(b)` no more and `b` holds `BlockedBy(a)`
/// no more, and `b` is new again if no other todo blocks it.
pub proof fn unlink_undoes_link(todos: Seq<TodoView>, a: ID, b: ID)
    requires
        unique_ids(todos),
        linked(todos, a, Link::Blocks(b)).failure is None,
        has_id(todos, b),
    ensures
        ({
            let s1 = linked(todos, a, Link::Blocks(b)).todos;
            let s2 = unlinked(s1, a, Link::Blocks(b));
            &&& s2.failure is None
            &&& !record(s2.todos, a).links.contains(Link::Blocks(b))
            &&& !record(s2.todos, b).links.contains(Link::BlockedBy(a))
            &&& only_blocker(record(s1, b).links, a) ==> record(s2.todos, b).status == Status::New
        }),
{
    let s1 = linked(todos, a, Link::Blocks(b)).todos;
    crate::service::rules::lemma_links_keep_ids(todos, a, b);
    crate::service::rules::lemma_same_ids(todos, s1);
    if !holds_block(todos, a, b) {
        lemma_established_records(todos, a, b, a);
        lemma_with_once(record(todos, a).links, Link::Blocks(b));
    }
    assert(holds_block(s1, a, b));
    lemma_unblocked_records(s1, a, b, a);
    lemma_unblocked_records(s1, a, b, b);
    lemma_without(record(s1, a).links, Link::Blocks(b));
    lemma_without(record(s1, b).links, Link::BlockedBy(a));
    if only_blocker(record(s1, b).links, a) {
        lemma_last_blocker_gone(record(s1, b).links, a);
    }
}

/// Through the steps that a todo `a` set to done takes for its links, a
/// todo `b` that only `a` blocks comes out new and without a blocker,
/// where `links` names `b` and `a` still holds the link; and a todo that is
/// new and without a blocker stays so.
proof fn lemma_done_releases(cur: Seq<TodoView>, a: ID, b: ID, links: Seq<Link>)
    requires
        unique_ids(cur),
        a != b,
        has_id(cur, a),
        has_id(cur, b),
        cascaded(cur, a, links, Status::Done).failure is None,
        (links.contains(Link::Blocks(b)) && record(cur, a).links.contains(Link::Blocks(b))
            && only_blocker(record(cur, b).links, a)) || (record(cur, b).status == Status::New
            && !has_blocker(record(cur, b).links)),
    ensures
        has_id(cascaded(cur, a, links, Status::Done).todos, b),
        record(cascaded(cur, a, links, Status::Done).todos, b).status == Status::New,
        !has_blocker(record(cascaded(cur, a, links, Status::Done).todos, b).links),
    decreases links.len(),
{
    if links.len() == 0 {
        if links.contains(Link::Blocks(b)) {
            let i = links.index_of(Link::Blocks(b));
        }
    } else {
        let l = links[0];
        let s = cascade_step(cur, a, l, Status::Done);
        let rest = links.drop_first();
        assert(links.contains(Link::Blocks(b)) && l != Link::Blocks(b) ==> rest.contains(
            Link::Blocks(b),
        )) by {
            if links.contains(Link::Blocks(b)) && l != Link::Blocks(b) {
                let i = links.index_of(Link::Blocks(b));
                assert(rest[i - 1] == Link::Blocks(b));
            }
        }
        match l {
            Link::Blocks(c) => {
                crate::service::rules::lemma_links_keep_ids(cur, a, c);
                crate::service::rules::lemma_same_ids(cur, s.todos);
                lemma_unblocked_records(cur, a, c, b);
                lemma_unblocked_records(cur, a, c, a);
                if holds_block(cur, a, c) {
                    lemma_without(record(cur, a).links, Link::Blocks(c));
                    if c == b {
                        if only_blocker(record(cur, b).links, a) {
                            lemma_last_blocker_gone(record(cur, b).links, a);
                        } else {
                            lemma_no_blocker_stays(record(cur, b).links, Link::BlockedBy(a));
                        }
                    } else if c == a {
                        let first = link_dropped(record(cur, a), Link::Blocks(c));
                        lemma_without(first.links, Link::BlockedBy(a));
                    }
                }
                lemma_done_releases(s.todos, a, b, rest);
            },
            _ => {
                lemma_done_releases(s.todos, a, b, rest);
            },
        }
    }
}

/// When a todo `a` that blocks `b` is set to done, and the update goes
/// well, `b` is new afterwards if `a` was its only blocker.
pub proof fn done_releases_blocked(todos: Seq<TodoView>, a: ID, b: ID, cs: ChangesetView)
    requires
        unique_ids(todos),
        a != b,
        has_id(todos, a),
        has_id(todos, b),
        record(todos, a).links.contains(Link::Blocks(b)),
        only_blocker(record(todos, b).links, a),
        cs.updated,
        cs.status == Some(Status::Done),
        updated(todos, a, cs).failure is None,
    ensures
        has_id(updated(todos, a, cs).todos, b),
        record(updated(todos, a, cs).todos, b).status == Status::New,
        !record(updated(todos, a, cs).todos, b).links.contains(Link::BlockedBy(a)),
{
    let links = record(todos, a).links;
    let s = cascaded(todos, a, links, Status::Done);
    lemma_done_releases(todos, a, b, links);
    crate::service::rules::lemma_cascade_keeps_ids(todos, a, links, Status::Done);
    crate::service::rules::lemma_same_ids(todos, s.todos);
    lemma_replaced(s.todos, cs.applied(record(s.todos, a)));
    let out = record(updated(todos, a, cs).todos, b);
    if out.links.contains(Link::BlockedBy(a)) {
        let i = out.links.index_of(Link::BlockedBy(a));
        assert(out.links[i] is BlockedBy);
    }
}

/// Removing a context without its todos keeps every todo and leaves none
/// in the context; removing it with its todos leaves as many todos fewer as
/// belonged to it, and none in the context.
pub proof fn context_removal_counts(todos: Seq<TodoView>, name: Seq<char>)
    ensures
        all_out_of_context(todos, name).len() == todos.len(),
        forall|i: int|
            0 <= i < todos.len() ==> !in_context(#[trigger] all_out_of_context(todos, name)[i], name),
        forall|i: int|
            0 <= i < todos.len() && !in_context(todos[i], name) ==> #[trigger] all_out_of_context(
                todos,
                name,
            )[i] == todos[i],
        others(todos, name).len() == todos.len() - members(todos, name).len(),
        forall|i: int|
            0 <= i < others(todos, name).len() ==> !in_context(#[trigger] others(todos, name)[i], name),
{
    lemma_members_and_others(todos, name);
    let keep = |t: TodoView| !in_context(t, name);
    assert forall|i: int| 0 <= i < others(todos, name).len() implies !in_context(
        #[trigger] others(todos, name)[i],
        name,
    ) by {
        todos.lemma_filter_pred(keep, i);
    }
}

/// True when the todo `id` exists and holds the link `l`.
pub open spec fn holds(todos: Seq<TodoView>, id: ID, l: Link) -> bool {
    has_id(todos, id) && record(todos, id).links.contains(l)
}

/// True when every blocking link has both its ends: a todo `a` holds
/// `Blocks(b)` just when the todo `b` holds `BlockedBy(a)`.
pub open spec fn paired(todos: Seq<TodoView>) -> bool {
    forall|a: ID, b: ID| #[trigger]
        holds(todos, a, Link::Blocks(b)) <==> holds(todos, b, Link::BlockedBy(a))
}

/// After a blocking link was removed, a todo holds the links that it held
/// before, but for the two ends of that link.
pub proof fn lemma_unblocked_holds(
    todos: Seq<TodoView>,
    blocker: ID,
    blocked: ID,
    x: ID,
    l: Link,
)
    requires
        unique_ids(todos),
        unblocked(todos, blocker, blocked).failure is None,
        holds_block(todos, blocker, blocked),
    ensures
        holds(unblocked(todos, blocker, blocked).todos, x, l) == (holds(todos, x, l) && !(x
            == blocker && l == Link::Blocks(blocked)) && !(x == blocked && l == Link::BlockedBy(
            blocker,
        ))),
{
    let after = unblocked(todos, blocker, blocked).todos;
    lemma_links_keep_ids(todos, blocker, blocked);
    lemma_same_ids(todos, after);
    if has_id(todos, x) {
        lemma_unblocked_records(todos, blocker, blocked, x);
        let first = link_dropped(record(todos, blocker), Link::Blocks(blocked));
        lemma_without(record(todos, blocker).links, Link::Blocks(blocked));
        lemma_without(record(todos, blocked).links, Link::BlockedBy(blocker));
        lemma_without(first.links, Link::BlockedBy(blocker));
    }
}

/// After a blocking link was established, a todo holds the links that it
/// held before, and the two ends of that link where they belong.
pub proof fn lemma_established_holds(
    todos: Seq<TodoView>,
    blocker: ID,
    blocked: ID,
    x: ID,
    l: Link,
)
    requires
        unique_ids(todos),
        has_id(todos, blocker),
        has_id(todos, blocked),
        blocker != blocked,
    ensures
        holds(block_established(todos, blocker, blocked), x, l) == (holds(todos, x, l) || (x
            == blocker && l == Link::Blocks(blocked)) || (x == blocked && l == Link::BlockedBy(
            blocker,
        ))),
{
    let after = block_established(todos, blocker, blocked);
    lemma_links_keep_ids(todos, blocker, blocked);
    if has_id(todos, x) {
        lemma_established_records(todos, blocker, blocked, x);
        lemma_with_once(record(todos, blocker).links, Link::Blocks(blocked));
        lemma_with_once(record(todos, blocked).links, Link::BlockedBy(blocker));
    } else {
        let first = link_added(record(todos, blocker), Link::Blocks(blocked));
        let s1 = replaced(todos, first);
        lemma_replaced(todos, first);
        lemma_replaced(s1, held(record(s1, blocked), blocker));
    }
}

/// Removing a blocking link from todos whose blocking links have both
/// their ends goes well, unless the blocker does not exist, and leaves
/// todos whose blocking links have both their ends.
pub proof fn unblocking_keeps_pairs(todos: Seq<TodoView>, blocker: ID, blocked: ID)
    requires
        unique_ids(todos),
        paired(todos),
    ensures
        paired(unblocked(todos, blocker, blocked).todos),
        has_id(todos, blocker) ==> unblocked(todos, blocker, blocked).failure is None,
{
    let after = unblocked(todos, blocker, blocked).todos;
    if holds_block(todos, blocker, blocked) {
        assert(holds(todos, blocker, Link::Blocks(blocked)));
        assert(holds(todos, blocked, Link::BlockedBy(blocker)));
        assert forall|a: ID, b: ID| #[trigger]
            holds(after, a, Link::Blocks(b)) <==> holds(after, b, Link::BlockedBy(a)) by {
            lemma_unblocked_holds(todos, blocker, blocked, a, Link::Blocks(b));
            lemma_unblocked_holds(todos, blocker, blocked, b, Link::BlockedBy(a));
            assert(holds(todos, a, Link::Blocks(b)) <==> holds(todos, b, Link::BlockedBy(a)));
        }
    }
}

/// Giving a todo a link leaves todos whose blocking links have both their
/// ends as such, whether the link is taken or refused.
pub proof fn link_keeps_pairs(todos: Seq<TodoView>, id: ID, link: Link)
    requires
        unique_ids(todos),
        paired(todos),
    ensures
        paired(linked(todos, id, link).todos),
{
    let after = linked(todos, id, link).todos;
    if linked(todos, id, link).failure is None && after != todos {
        if link is RelatesTo {
            let t = link_added(record(todos, id), link);
            lemma_replaced(todos, t);
            lemma_with_once(record(todos, id).links, link);
            assert forall|a: ID, b: ID| #[trigger]
                holds(after, a, Link::Blocks(b)) <==> holds(after, b, Link::BlockedBy(a)) by {
                assert(holds(todos, a, Link::Blocks(b)) <==> holds(todos, b, Link::BlockedBy(a)));
            }
        } else {
            let blocker = blocker_of(id, link);
            let blocked = blocked_of(id, link);
            assert forall|a: ID, b: ID| #[trigger]
                holds(after, a, Link::Blocks(b)) <==> holds(after, b, Link::BlockedBy(a)) by {
                lemma_established_holds(todos, blocker, blocked, a, Link::Blocks(b));
                lemma_established_holds(todos, blocker, blocked, b, Link::BlockedBy(a));
                assert(holds(todos, a, Link::Blocks(b)) <==> holds(todos, b, Link::BlockedBy(a)));
            }
        }
    }
}

/// Taking a link from a todo leaves todos whose blocking links have both
/// their ends as such, and gives up only where the todo that holds the
/// forward end does not exist.
pub proof fn unlink_keeps_pairs(todos: Seq<TodoView>, id: ID, link: Link)
    requires
        unique_ids(todos),
        paired(todos),
    ensures
        paired(unlinked(todos, id, link).todos),
        has_id(todos, blocker_of(id, link)) ==> unlinked(todos, id, link).failure is None,
{
    let after = unlinked(todos, id, link).todos;
    if link is RelatesTo {
        if has_id(todos, id) {
            let t = link_dropped(record(todos, id), link);
            lemma_replaced(todos, t);
            lemma_without(record(todos, id).links, link);
            assert forall|a: ID, b: ID| #[trigger]
                holds(after, a, Link::Blocks(b)) <==> holds(after, b, Link::BlockedBy(a)) by {
                assert(holds(todos, a, Link::Blocks(b)) <==> holds(todos, b, Link::BlockedBy(a)));
            }
        }
    } else {
        unblocking_keeps_pairs(todos, blocker_of(id, link), blocked_of(id, link));
    }
}

/// The steps that a changed status takes for the links of a todo leave
/// todos whose blocking links have both their ends as such, and none of
/// them gives up where every blocker that is named exists.
pub proof fn cascade_keeps_pairs(todos: Seq<TodoView>, id: ID, links: Seq<Link>, to: Status)
    requires
        unique_ids(todos),
        paired(todos),
        has_id(todos, id),
        forall|i: int|
            0 <= i < links.len() && (#[trigger] links[i]) is BlockedBy ==> has_id(
                todos,
                links[i].target(),
            ),
    ensures
        paired(cascaded(todos, id, links, to).todos),
        cascaded(todos, id, links, to).failure is None,
    decreases links.len(),
{
    if links.len() > 0 {
        let s = cascade_step(todos, id, links[0], to);
        let rest = links.drop_first();
        assert forall|i: int| 0 <= i < rest.len() && (#[trigger] rest[i]) is BlockedBy implies has_id(
            todos,
            rest[i].target(),
        ) by {
            assert(rest[i] == links[i + 1]);
        }
        match links[0] {
            Link::Blocks(b) => {
                unblocking_keeps_pairs(todos, id, b);
                lemma_links_keep_ids(todos, id, b);
            },
            Link::BlockedBy(a) => {
                unblocking_keeps_pairs(todos, a, id);
                lemma_links_keep_ids(todos, a, id);
            },
            Link::RelatesTo(_) => {},
        }
        lemma_same_ids(todos, s.todos);
        cascade_keeps_pairs(s.todos, id, rest, to);
    }
}

/// Updating a todo leaves todos whose blocking links have both their ends
/// as such, and gives up only where the todo does not exist.
pub proof fn update_keeps_pairs(todos: Seq<TodoView>, id: ID, cs: ChangesetView)
    requires
        unique_ids(todos),
        paired(todos),
    ensures
        paired(updated(todos, id, cs).todos),
        has_id(todos, id) ==> updated(todos, id, cs).failure is None,
{
    if has_id(todos, id) && cs.updated {
        let links = record(todos, id).links;
        let s = if cascades(cs.status) {
            cascaded(todos, id, links, cs.status.unwrap())
        } else {
            went_well(todos)
        };
        if cascades(cs.status) {
            assert forall|i: int| 0 <= i < links.len() && (#[trigger] links[i]) is BlockedBy implies has_id(
                todos,
                links[i].target(),
            ) by {
                let a = links[i].target();
                assert(links.contains(links[i]));
                assert(holds(todos, id, Link::BlockedBy(a)));
                assert(holds(todos, a, Link::Blocks(id)));
            }
            cascade_keeps_pairs(todos, id, links, cs.status.unwrap());
            lemma_cascade_keeps_ids(todos, id, links, cs.status.unwrap());
        }
        lemma_same_ids(todos, s.todos);
        let t = cs.applied(record(s.todos, id));
        let after = replaced(s.todos, t);
        lemma_replaced(s.todos, t);
        assert forall|a: ID, b: ID| #[trigger]
            holds(after, a, Link::Blocks(b)) <==> holds(after, b, Link::BlockedBy(a)) by {
            assert(holds(s.todos, a, Link::Blocks(b)) <==> holds(s.todos, b, Link::BlockedBy(a)));
        }
    }
}

/// Taking a todo out of the store leaves every other todo as it was.
pub proof fn lemma_taken_out(todos: Seq<TodoView>, id: ID, x: ID)
    requires
        unique_ids(todos),
        has_id(todos, id),
    ensures
        unique_ids(todos.remove(index_of_id(todos, id))),
        has_id(todos.remove(index_of_id(todos, id)), x) == (has_id(todos, x) && x != id),
        has_id(todos, x) && x != id ==> record(todos.remove(index_of_id(todos, id)), x) == record(
            todos,
            x,
        ),
{
    let p = index_of_id(todos, id);
    let r = todos.remove(p);
    assert forall|i: int| 0 <= i < r.len() implies #[trigger] r[i] == todos[if i < p {
        i
    } else {
        i + 1
    }] by {}
    assert forall|i: int, j: int| 0 <= i < r.len() && 0 <= j < r.len() && i != j implies (
    #[trigger] r[i]).id != (#[trigger] r[j]).id by {
        let i0 = if i < p { i } else { i + 1 };
        let j0 = if j < p { j } else { j + 1 };
        assert(r[i] == todos[i0] && r[j] == todos[j0]);
    }
    if has_id(todos, x) && x != id {
        let q = index_of_id(todos, x);
        let q0 = if q < p { q } else { q - 1 };
        assert(r[q0] == todos[q]);
        lemma_index_of_id(r, q0);
    }
    if has_id(r, x) {
        let i = index_of_id(r, x);
        let i0 = if i < p { i } else { i + 1 };
        assert(r[i] == todos[i0]);
        assert(todos[i0].id == x);
        lemma_index_of_id(todos, i0);
    }
}

/// After a todo let go of `links`, blocking links have both their ends as
/// before, and the todo holds no blocking link that it did not hold before
/// or that is among `links`.
pub proof fn detaching_keeps_pairs(todos: Seq<TodoView>, id: ID, links: Seq<Link>)
    requires
        unique_ids(todos),
        paired(todos),
        has_id(todos, id),
    ensures
        paired(detached(todos, id, links)),
        forall|l: Link|
            !(l is RelatesTo) && #[trigger] holds(detached(todos, id, links), id, l) ==> holds(
                todos,
                id,
                l,
            ) && !links.contains(l),
    decreases links.len(),
{
    if links.len() > 0 {
        let s = detach_step(todos, id, links[0]);
        let rest = links.drop_first();
        match links[0] {
            Link::Blocks(b) => {
                unblocking_keeps_pairs(todos, id, b);
                lemma_links_keep_ids(todos, id, b);
            },
            Link::BlockedBy(a) => {
                unblocking_keeps_pairs(todos, a, id);
                lemma_links_keep_ids(todos, a, id);
            },
            Link::RelatesTo(_) => {},
        }
        lemma_same_ids(todos, s);
        detaching_keeps_pairs(s, id, rest);
        assert forall|l: Link|
            !(l is RelatesTo) && #[trigger] holds(detached(todos, id, links), id, l) implies holds(
            todos,
            id,
            l,
        ) && !links.contains(l) by {
            assert(holds(s, id, l) && !rest.contains(l));
            match links[0] {
                Link::Blocks(b) => {
                    if holds_block(todos, id, b) {
                        lemma_unblocked_holds(todos, id, b, id, l);
                    }
                },
                Link::BlockedBy(a) => {
                    assert(holds(todos, a, Link::Blocks(id)) <==> holds(
                        todos,
                        id,
                        Link::BlockedBy(a),
                    ));
                    if holds_block(todos, a, id) {
                        lemma_unblocked_holds(todos, a, id, id, l);
                    }
                },
                Link::RelatesTo(_) => {},
            }
            if links.contains(l) {
                let i = links.index_of(l);
                if i > 0 {
                    assert(rest[i - 1] == l);
                }
            }
        }
    }
}

/// Removing a todo leaves todos whose blocking links have both their ends
/// as such: no todo is left that blocks, or is blocked by, the one that is
/// gone.
pub proof fn remove_keeps_pairs(todos: Seq<TodoView>, id: ID)
    requires
        unique_ids(todos),
        paired(todos),
        has_id(todos, id),
    ensures
        paired(removed(todos, id)),
        !has_id(removed(todos, id), id),
        removed(todos, id).len() == todos.len() - 1,
{
    let links = record(todos, id).links;
    let d = detached(todos, id, links);
    detaching_keeps_pairs(todos, id, links);
    lemma_detached_keeps_ids(todos, id, links);
    lemma_same_ids(todos, d);
    let after = removed(todos, id);
    lemma_taken_out(d, id, id);
    assert forall|a: ID, b: ID| #[trigger]
        holds(after, a, Link::Blocks(b)) <==> holds(after, b, Link::BlockedBy(a)) by {
        lemma_taken_out(d, id, a);
        lemma_taken_out(d, id, b);
        assert(holds(d, a, Link::Blocks(b)) <==> holds(d, b, Link::BlockedBy(a)));
        if holds(d, id, Link::Blocks(b)) {
            assert(holds(todos, id, Link::Blocks(b)) && !links.contains(Link::Blocks(b)));
        }
        if holds(d, id, Link::BlockedBy(a)) {
            assert(holds(todos, id, Link::BlockedBy(a)) && !links.contains(Link::BlockedBy(a)));
        }
    }
}

/// A link that is given changes the status of one todo at most: the todo
/// that a new blocking link blocks becomes blocked, and every other todo
/// keeps its status.
pub proof fn link_changes_one_status(todos: Seq<TodoView>, id: ID, link: Link, other: ID)
    requires
        unique_ids(todos),
        has_id(todos, other),
    ensures
        has_id(linked(todos, id, link).todos, other),
        record(linked(todos, id, link).todos, other).status == if linked(todos, id, link).failure
            is None && !(link is RelatesTo) && !holds_block(
            todos,
            blocker_of(id, link),
            blocked_of(id, link),
        ) && other == blocked_of(id, link) {
            Status::Blocked
        } else {
            record(todos, other).status
        },
{
    if linked(todos, id, link).failure is None {
        if link is RelatesTo {
            lemma_replaced(todos, link_added(record(todos, id), link));
        } else if !holds_block(todos, blocker_of(id, link), blocked_of(id, link)) {
            lemma_established_records(todos, blocker_of(id, link), blocked_of(id, link), other);
        }
    }
}

/// A blocking link that is taken away changes the status of one todo at
/// most: the todo that was blocked is new again if no blocker is left, and
/// every other todo keeps its status.
pub proof fn unblocking_changes_one_status(
    todos: Seq<TodoView>,
    blocker: ID,
    blocked: ID,
    other: ID,
)
    requires
        unique_ids(todos),
        has_id(todos, other),
        unblocked(todos, blocker, blocked).failure is None,
    ensures
        has_id(unblocked(todos, blocker, blocked).todos, other),
        record(unblocked(todos, blocker, blocked).todos, other).status == if holds_block(
            todos,
            blocker,
            blocked,
        ) && other == blocked && !has_blocker(
            record(unblocked(todos, blocker, blocked).todos, other).links,
        ) {
            Status::New
        } else {
            record(todos, other).status
        },
{
    lemma_unblocked_records(todos, blocker, blocked, other);
}

} // verus!
