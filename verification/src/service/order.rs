//! The order in which todos are listed.
use crate::model::{views_of, Status, Todo, TodoView};
use vstd::prelude::*;

verus! {

/// True when no todo of `todos` stands behind one that it precedes.
pub open spec fn in_order(todos: Seq<TodoView>) -> bool {
    forall|i: int, j: int| 0 <= i < j < todos.len() ==> !(#[trigger] todos[j]).precedes(
        #[trigger] todos[i],
    )
}

/// True when `out` is a listing of `todos`: the same todos, each as often
/// as in `todos`, in order.
pub open spec fn is_listing(out: Seq<TodoView>, todos: Seq<TodoView>) -> bool {
    in_order(out) && out.to_multiset() == todos.to_multiset()
}

/// What precedes a todo that precedes a third precedes the third, and no
/// todo precedes one that precedes it.
pub proof fn precedes_is_strict_order(a: TodoView, b: TodoView, c: TodoView)
    ensures
        a.precedes(b) && b.precedes(c) ==> a.precedes(c),
        !(a.precedes(b) && b.precedes(a)),
        !a.precedes(a),
{
}

/// Of three todos, if the first precedes the third, then it precedes the
/// second or the second precedes the third.
pub proof fn precedes_is_weak_order(a: TodoView, b: TodoView, c: TodoView)
    ensures
        a.precedes(c) ==> a.precedes(b) || b.precedes(c),
{
}

/// In a listing every todo that is done stands behind every todo that is
/// not.
pub proof fn done_sorts_last(out: Seq<TodoView>, i: int, j: int)
    requires
        in_order(out),
        0 <= i < out.len(),
        0 <= j < out.len(),
        out[i].status == Status::Done,
        out[j].status != Status::Done,
    ensures
        j < i,
{
    if i < j {
        assert(!out[j].precedes(out[i]));
    }
}

/// In a listing of todos that are not done, of the same status and the same
/// age, a todo of higher priority never stands behind one of lower.
pub proof fn higher_priority_sorts_first(out: Seq<TodoView>, i: int, j: int)
    requires
        in_order(out),
        0 <= i < j < out.len(),
        out[i].status != Status::Done,
        out[j].status != Status::Done,
    ensures
        out[i].prio.place() <= out[j].prio.place(),
{
    assert(!out[j].precedes(out[i]));
}

/// The place at which `x` goes into the listing `out`: before the first
/// todo that it precedes, or at the end.
pub open spec fn place_for(out: Seq<TodoView>, x: TodoView) -> int
    decreases out.len(),
{
    if out.len() == 0 || x.precedes(out[0]) {
        0
    } else {
        1 + place_for(out.drop_first(), x)
    }
}

/// The listing of `todos`: each todo in turn goes in at its place, so that
/// todos between which the order does not decide keep their order.
pub open spec fn listing(todos: Seq<TodoView>) -> Seq<TodoView>
    decreases todos.len(),
{
    if todos.len() == 0 {
        Seq::<TodoView>::empty()
    } else {
        let rest = listing(todos.drop_last());
        rest.insert(place_for(rest, todos.last()), todos.last())
    }
}

/// The place for `x` is within the listing, `x` precedes none of the todos
/// before it, and precedes the one at it.
pub proof fn lemma_place_for(out: Seq<TodoView>, x: TodoView)
    ensures
        0 <= place_for(out, x) <= out.len(),
        forall|k: int| 0 <= k < place_for(out, x) ==> !x.precedes(#[trigger] out[k]),
        place_for(out, x) < out.len() ==> x.precedes(out[place_for(out, x)]),
    decreases out.len(),
{
    if out.len() == 0 || x.precedes(out[0]) {
    } else {
        let rest = out.drop_first();
        lemma_place_for(rest, x);
        assert forall|k: int| 0 <= k < place_for(out, x) implies !x.precedes(#[trigger] out[k]) by {
            if k > 0 {
                assert(rest[k - 1] == out[k]);
            }
        }
        if place_for(out, x) < out.len() {
            assert(rest[place_for(rest, x)] == out[place_for(out, x)]);
        }
    }
}

/// A todo that goes into a listing at its place leaves a listing.
pub proof fn lemma_insert_keeps_order(out: Seq<TodoView>, x: TodoView)
    requires
        in_order(out),
    ensures
        in_order(out.insert(place_for(out, x), x)),
{
    lemma_place_for(out, x);
    let p = place_for(out, x);
    let after = out.insert(p, x);
    assert forall|a: int, b: int| 0 <= a < b < after.len() implies !(#[trigger] after[b]).precedes(
        #[trigger] after[a],
    ) by {
        if b == p {
            assert(after[a] == out[a]);
        } else if a == p {
            assert(after[b] == out[b - 1]);
            assert(x.precedes(out[p]));
            if b - 1 > p {
                assert(!out[b - 1].precedes(out[p]));
            }
            precedes_is_strict_order(out[b - 1], x, out[p]);
        } else {
            let a0 = if a < p { a } else { a - 1 };
            let b0 = if b < p { b } else { b - 1 };
            assert(after[a] == out[a0]);
            assert(after[b] == out[b0]);
        }
    }
}

/// The listing of todos holds the same todos, each as often, in order.
pub proof fn listing_is_ordered(todos: Seq<TodoView>)
    ensures
        is_listing(listing(todos), todos),
        listing(todos).len() == todos.len(),
    decreases todos.len(),
{
    if todos.len() == 0 {
        assert(listing(todos) =~= todos);
    } else {
        let rest = listing(todos.drop_last());
        listing_is_ordered(todos.drop_last());
        lemma_place_for(rest, todos.last());
        lemma_insert_keeps_order(rest, todos.last());
        vstd::seq_lib::to_multiset_insert(rest, place_for(rest, todos.last()), todos.last());
        assert(todos.drop_last().push(todos.last()) =~= todos);
        vstd::seq_lib::to_multiset_build(todos.drop_last(), todos.last());
    }
}

/// The todos in the order of a listing: what is done comes last; the rest
/// goes by priority, then by status, then by age. Todos between which the
/// order does not decide keep their order.
pub fn sort_todos(todos: Vec<Todo>) -> (r: Vec<Todo>)
    ensures
        views_of(r@) == listing(views_of(todos@)),
        is_listing(views_of(r@), views_of(todos@)),
{
    let mut out: Vec<Todo> = Vec::new();
    let mut i: usize = 0;
    let ghost all = views_of(todos@);
    proof {
        assert(views_of(out@) =~= Seq::<TodoView>::empty());
        assert(all.take(0) =~= Seq::<TodoView>::empty());
    }
    while i < todos.len()
        invariant
            i <= todos@.len(),
            all == views_of(todos@),
            views_of(out@) == listing(all.take(i as int)),
        decreases todos@.len() - i,
    {
        let x = todos[i].duplicate();
        let ghost before = views_of(out@);
        let mut p: usize = 0;
        proof {
            lemma_place_for(before, x@);
        }
        while p < out.len() && !x.sorts_before(&out[p])
            invariant
                p <= out@.len(),
                before == views_of(out@),
                p <= place_for(before, x@) <= before.len(),
                forall|k: int| 0 <= k < place_for(before, x@) ==> !x@.precedes(#[trigger] before[k]),
                place_for(before, x@) < before.len() ==> x@.precedes(before[place_for(before, x@)]),
            decreases out@.len() - p,
        {
            assert(!x@.precedes(before[p as int]));
            p += 1;
        }
        assert(p == place_for(before, x@)) by {
            if p < place_for(before, x@) {
                assert(x@.precedes(before[p as int]));
            }
        }
        out.insert(p, x);
        proof {
            assert(views_of(out@) =~= before.insert(p as int, x@));
            assert(all.take(i as int + 1).drop_last() =~= all.take(i as int));
            assert(all.take(i as int + 1).last() == all[i as int]);
        }
        i += 1;
    }
    proof {
        assert(all.take(i as int) =~= all);
        listing_is_ordered(all);
    }
    out
}

} // verus!
