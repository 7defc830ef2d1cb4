use super::{Link, Prio, Status, Tags, CSV, ID};
use vstd::prelude::*;
use vstd::std_specs::cmp::PartialOrdSpec;

verus! {

/// A unit of work with a status, a priority and the rest of what is known
/// about it.
#[derive(Debug)]
pub struct Todo {
    /// ID of this todo.
    pub id: ID,
    /// When this todo was created, in milliseconds since the epoch.
    pub created: i64,
    /// Current status.
    pub status: Status,
    /// The priority of this todo.
    pub prio: Prio,
    /// Subject is a short summary of this todo.
    pub subject: String,
    /// Description can contain more details about this todo.
    pub description: String,
    /// The context, if any, that this todo belongs to.
    pub context: Option<String>,
    /// Linked todos.
    pub links: CSV<Link>,
    /// Tags can include certain attributes for a todo.
    pub tags: Tags,
}

/// What a todo holds, as plain values.
pub struct TodoView {
    pub id: ID,
    pub created: i64,
    pub status: Status,
    pub prio: Prio,
    pub subject: Seq<char>,
    pub description: Seq<char>,
    pub context: Option<Seq<char>>,
    pub links: Seq<Link>,
    pub tags: Seq<Seq<char>>,
}

/// The text behind an optional string.
pub open spec fn text_of(s: Option<String>) -> Option<Seq<char>> {
    match s {
        Some(s) => Some(s@),
        None => None,
    }
}

impl View for Todo {
    type V = TodoView;

    open spec fn view(&self) -> TodoView {
        TodoView {
            id: self.id,
            created: self.created,
            status: self.status,
            prio: self.prio,
            subject: self.subject@,
            description: self.description@,
            context: text_of(self.context),
            links: self.links@,
            tags: self.tags@,
        }
    }
}

impl TodoView {
    /// True when `self` is listed strictly before `other`: a todo that is
    /// done never is; one that is not done comes before any that is; two that
    /// are not done go by priority, then by status, then by age.
    pub open spec fn precedes(self, other: TodoView) -> bool {
        if self.status == Status::Done {
            false
        } else if other.status == Status::Done {
            true
        } else if self.prio.place() != other.prio.place() {
            self.prio.place() < other.prio.place()
        } else if self.status.place() != other.status.place() {
            self.status.place() < other.status.place()
        } else {
            self.created < other.created
        }
    }
}

impl Todo {
    /// Creates a new todo from the parameters.
    pub fn new(
        id: ID,
        created: i64,
        status: Status,
        prio: Prio,
        subject: String,
        description: String,
        tags: Tags,
        context: Option<String>,
        links: CSV<Link>,
    ) -> (r: Self)
        ensures
            r == (Todo { id, created, status, prio, subject, description, context, links, tags }),
    {
        Self { id, created, status, prio, subject, description, tags, context, links }
    }

    /// Returns true if the status of this todo is done.
    pub fn is_done(&self) -> (r: bool)
        ensures
            r == (self.status == Status::Done),
    {
        matches!(self.status, Status::Done)
    }

    pub fn is_blocked(&self) -> (r: bool)
        ensures
            r == (self.status == Status::Blocked),
    {
        matches!(self.status, Status::Blocked)
    }

    /// The links of this todo that say which todos it blocks, in order.
    pub fn blocks(&self) -> (r: Vec<Link>)
        ensures
            r@ == self.links@.filter(|l: Link| l is Blocks),
    {
        let mut out: Vec<Link> = Vec::new();
        let mut i: usize = 0;
        let ghost keep = |l: Link| l is Blocks;
        while i < self.links.0.len()
            invariant
                i <= self.links.0@.len(),
                keep == (|l: Link| l is Blocks),
                out@ == self.links@.take(i as int).filter(keep),
            decreases self.links.0@.len() - i,
        {
            proof {
                assert(self.links@.take(i as int + 1) =~= self.links@.take(i as int).push(
                    self.links@[i as int],
                ));
                self.links@.take(i as int).lemma_filter_push(self.links@[i as int], keep);
            }
            if self.links.0[i].is_blocks() {
                out.push(self.links.0[i]);
            }
            i += 1;
        }
        assert(self.links@.take(i as int) =~= self.links@);
        out
    }

    /// True when this todo is listed strictly before `other`.
    pub fn sorts_before(&self, other: &Todo) -> (r: bool)
        ensures
            r == self@.precedes(other@),
    {
        if self.is_done() {
            false
        } else if other.is_done() {
            true
        } else if self.prio.rank() != other.prio.rank() {
            self.prio.rank() < other.prio.rank()
        } else if self.status.rank() != other.status.rank() {
            self.status.rank() < other.status.rank()
        } else {
            self.created < other.created
        }
    }

    /// A copy of this todo.
    pub fn duplicate(&self) -> (r: Self)
        ensures
            r@ == self@,
    {
        let context = match &self.context {
            Some(c) => Some(c.clone()),
            None => None,
        };
        Self {
            id: self.id,
            created: self.created,
            status: self.status,
            prio: self.prio,
            subject: self.subject.clone(),
            description: self.description.clone(),
            context,
            links: self.links.duplicate(),
            tags: self.tags.duplicate(),
        }
    }
}

/// Two todos are the same todo when they have the same identifier.
impl PartialEq for Todo {
    fn eq(&self, other: &Self) -> (r: bool) {
        self.id == other.id
    }
}

impl vstd::std_specs::cmp::PartialEqSpecImpl for Todo {
    open spec fn obeys_eq_spec() -> bool {
        true
    }

    open spec fn eq_spec(&self, other: &Self) -> bool {
        self.id == other.id
    }
}

/// The order of todos in a listing: a todo that is done is greater than
/// any other; one that is not done is less than any that is; two that are
/// not done go by priority, then by status, then by age.
impl PartialOrd for Todo {
    fn partial_cmp(&self, other: &Self) -> (r: Option<core::cmp::Ordering>) {
        if self.is_done() {
            Some(core::cmp::Ordering::Greater)
        } else if other.is_done() {
            Some(core::cmp::Ordering::Less)
        } else if self.prio.rank() != other.prio.rank() {
            if self.prio.rank() < other.prio.rank() {
                Some(core::cmp::Ordering::Less)
            } else {
                Some(core::cmp::Ordering::Greater)
            }
        } else if self.status.rank() != other.status.rank() {
            if self.status.rank() < other.status.rank() {
                Some(core::cmp::Ordering::Less)
            } else {
                Some(core::cmp::Ordering::Greater)
            }
        } else if self.created < other.created {
            Some(core::cmp::Ordering::Less)
        } else if self.created == other.created {
            Some(core::cmp::Ordering::Equal)
        } else {
            Some(core::cmp::Ordering::Greater)
        }
    }
}

impl vstd::std_specs::cmp::PartialOrdSpecImpl for Todo {
    open spec fn obeys_partial_cmp_spec() -> bool {
        true
    }

    open spec fn partial_cmp_spec(&self, other: &Self) -> Option<core::cmp::Ordering> {
        if self.status == Status::Done {
            Some(core::cmp::Ordering::Greater)
        } else if self@.precedes(other@) {
            Some(core::cmp::Ordering::Less)
        } else if self.prio == other.prio && self.status == other.status && self.created
            == other.created {
            Some(core::cmp::Ordering::Equal)
        } else {
            Some(core::cmp::Ordering::Greater)
        }
    }
}

/// One todo precedes another just when it compares as less.
pub proof fn precedes_is_less(a: Todo, b: Todo)
    ensures
        a@.precedes(b@) <==> a.partial_cmp_spec(&b) == Some(core::cmp::Ordering::Less),
{
}

} // verus!
