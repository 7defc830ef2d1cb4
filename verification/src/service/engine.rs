//! The two writes of a blocking link, done on the store.
use crate::error::Error;
use crate::model::{Link, Status, Todo, CSV, ID};
use crate::repository::{lemma_replaced, record, Repository, RepositoryView};
use crate::service::rules::{
    blocked_step, has_blocker, reports, unblocked, unblocked_returns,
};
use vstd::prelude::*;

verus! {

/// True when one of `links` says that its holder is blocked.
pub fn any_blocked_by(links: &CSV<Link>) -> (r: bool)
    ensures
        r == has_blocker(links@),
{
    let mut i: usize = 0;
    while i < links.0.len()
        invariant
            i <= links.0@.len(),
            forall|k: int| 0 <= k < i ==> !(#[trigger] links@[k] is BlockedBy),
        decreases links.0@.len() - i,
    {
        if links.0[i].is_blocked_by() {
            assert(links@[i as int] is BlockedBy);
            return true;
        }
        i += 1;
    }
    false
}

/// Removes the blocking link between `blocker` and `blocked` from both
/// todos, and makes the blocked todo new again when nothing blocks it any
/// more. Returns the blocker as it was written.
pub fn remove_block(repo: &mut Repository, blocker: ID, blocked: ID) -> (r: Result<Todo, Error>)
    requires
        old(repo).wf(),
    ensures
        final(repo).wf(),
        final(repo)@ == (RepositoryView {
            todos: unblocked(old(repo)@.todos, blocker, blocked).todos,
            ..old(repo)@
        }),
        match unblocked(old(repo)@.todos, blocker, blocked).failure {
            Some(f) => r is Err && reports(r.unwrap_err(), f),
            None => r is Ok && r.unwrap()@ == unblocked_returns(
                old(repo)@.todos,
                blocker,
                blocked,
            ),
        },
{
    let blocks_link = Link::Blocks(blocked);
    let blocked_by_link = Link::BlockedBy(blocker);
    let mut first = match repo.get_todo(&blocker) {
        Ok(t) => t,
        Err(e) => {
            return Err(e);
        },
    };
    if !first.links.contains(&blocks_link) {
        return Ok(first);
    }
    first.links = first.links.remove(&blocks_link);
    proof {
        lemma_replaced(old(repo)@.todos, first@);
    }
    match repo.replace_todo(&first) {
        Ok(()) => {},
        Err(e) => {
            return Err(e);
        },
    }
    let mut second = match repo.get_todo(&blocked) {
        Ok(t) => t,
        Err(e) => {
            return Err(e);
        },
    };
    second.links = second.links.remove(&blocked_by_link);
    if !any_blocked_by(&second.links) {
        second.status = Status::New;
    }
    match repo.replace_todo(&second) {
        Ok(()) => {},
        Err(e) => {
            return Err(e);
        },
    }
    Ok(first)
}

/// Writes a new blocking link between `blocker` and `blocked` to both todos
/// and makes the blocked todo blocked. Returns the blocker as it stands in
/// the store afterwards.
pub fn establish_block(repo: &mut Repository, blocker: ID, blocked: ID) -> (r: Result<
    Todo,
    Error,
>)
    requires
        old(repo).wf(),
        blocker != blocked,
    ensures
        final(repo).wf(),
        final(repo)@ == (RepositoryView {
            todos: blocked_step(old(repo)@.todos, blocker, blocked).todos,
            ..old(repo)@
        }),
        match blocked_step(old(repo)@.todos, blocker, blocked).failure {
            Some(f) => r is Err && reports(r.unwrap_err(), f),
            None => r is Ok && r.unwrap()@ == record(final(repo)@.todos, blocker),
        },
{
    let blocks_link = Link::Blocks(blocked);
    let blocked_by_link = Link::BlockedBy(blocker);
    let mut first = match repo.get_todo(&blocker) {
        Ok(t) => t,
        Err(_) => {
            return Err(
                Error::InvalidOperation(
                    String::from_str("cannot link to a todo that does not exist"),
                ),
            );
        },
    };
    if first.links.contains(&blocks_link) {
        return Ok(first);
    }
    let circular = Link::BlockedBy(blocked);
    if first.links.contains(&circular) {
        return Err(Error::InvalidOperation(String::from_str("circular link not allowed")));
    }
    let mut second = match repo.get_todo(&blocked) {
        Ok(t) => t,
        Err(_) => {
            return Err(
                Error::InvalidOperation(
                    String::from_str("cannot link to a todo that does not exist"),
                ),
            );
        },
    };
    first.links.push_not_exists(blocks_link);
    proof {
        lemma_replaced(old(repo)@.todos, first@);
    }
    match repo.replace_todo(&first) {
        Ok(()) => {},
        Err(e) => {
            return Err(e);
        },
    }
    second.links.push_not_exists(blocked_by_link);
    second.status = Status::Blocked;
    proof {
        lemma_replaced(repo@.todos, second@);
    }
    match repo.replace_todo(&second) {
        Ok(()) => {},
        Err(e) => {
            return Err(e);
        },
    }
    Ok(first)
}

} // verus!
