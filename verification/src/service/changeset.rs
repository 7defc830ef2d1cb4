use crate::model::todo::text_of;
use crate::model::{Link, Prio, Status, Tags, Todo, TodoView, CSV};
use vstd::prelude::*;

verus! {

/// The fields of a todo that one update sets; a field that is `None` is left
/// as it is.
#[derive(Debug)]
pub struct Changeset {
    pub status: Option<Status>,
    pub subject: Option<String>,
    pub prio: Option<Prio>,
    pub description: Option<String>,
    pub context: Option<String>,
    pub links: Option<CSV<Link>>,
    pub tags: Option<Tags>,
    pub updated: bool,
}

/// What a changeset holds, as plain values.
pub struct ChangesetView {
    pub status: Option<Status>,
    pub subject: Option<Seq<char>>,
    pub prio: Option<Prio>,
    pub description: Option<Seq<char>>,
    pub context: Option<Seq<char>>,
    pub links: Option<Seq<Link>>,
    pub tags: Option<Seq<Seq<char>>>,
    pub updated: bool,
}

impl View for Changeset {
    type V = ChangesetView;

    open spec fn view(&self) -> ChangesetView {
        ChangesetView {
            status: self.status,
            subject: text_of(self.subject),
            prio: self.prio,
            description: text_of(self.description),
            context: text_of(self.context),
            links: match self.links {
                Some(l) => Some(l@),
                None => None,
            },
            tags: match self.tags {
                Some(t) => Some(t@),
                None => None,
            },
            updated: self.updated,
        }
    }
}

impl ChangesetView {
    /// The changeset that sets nothing.
    pub open spec fn nothing() -> ChangesetView {
        ChangesetView {
            status: None,
            subject: None,
            prio: None,
            description: None,
            context: None,
            links: None,
            tags: None,
            updated: false,
        }
    }

    /// The todo `t` after this changeset: every field that the changeset
    /// sets is taken from it, but never the links, which only the linking
    /// operations change.
    pub open spec fn applied(self, t: TodoView) -> TodoView {
        TodoView {
            id: t.id,
            created: t.created,
            status: match self.status {
                Some(s) => s,
                None => t.status,
            },
            prio: match self.prio {
                Some(p) => p,
                None => t.prio,
            },
            subject: match self.subject {
                Some(s) => s,
                None => t.subject,
            },
            description: match self.description {
                Some(s) => s,
                None => t.description,
            },
            context: match self.context {
                Some(c) => Some(c),
                None => t.context,
            },
            links: t.links,
            tags: match self.tags {
                Some(tags) => tags,
                None => t.tags,
            },
        }
    }
}

impl Default for Changeset {
    fn default() -> (r: Self)
        ensures
            r@ == ChangesetView::nothing(),
    {
        Self {
            status: None,
            subject: None,
            prio: None,
            description: None,
            context: None,
            links: None,
            tags: None,
            updated: false,
        }
    }
}

impl Changeset {
    /// True when no field was set.
    pub fn is_empty(&self) -> (r: bool)
        ensures
            r == !self@.updated,
    {
        !self.updated
    }

    /// Copies every field that was set into `todo`, but for the links.
    pub fn apply(self, todo: &mut Todo)
        ensures
            final(todo)@ == self@.applied(old(todo)@),
    {
        if let Some(s) = self.subject {
            todo.subject = s;
        }
        if let Some(s) = self.status {
            todo.status = s;
        }
        if let Some(s) = self.prio {
            todo.prio = s;
        }
        if let Some(s) = self.description {
            todo.description = s;
        }
        if let Some(s) = self.context {
            todo.context = Some(s);
        }
        if let Some(s) = self.tags {
            todo.tags = s;
        }
    }

    pub fn with_subject(self, sub: String) -> (r: Self)
        ensures
            r@ == (ChangesetView { subject: Some(sub@), updated: true, ..self@ }),
    {
        let mut cs = self;
        cs.updated = true;
        cs.subject = Some(sub);
        cs
    }

    pub fn with_status(self, status: Status) -> (r: Self)
        ensures
            r@ == (ChangesetView { status: Some(status), updated: true, ..self@ }),
    {
        let mut cs = self;
        cs.updated = true;
        cs.status = Some(status);
        cs
    }

    pub fn with_prio(self, prio: Prio) -> (r: Self)
        ensures
            r@ == (ChangesetView { prio: Some(prio), updated: true, ..self@ }),
    {
        let mut cs = self;
        cs.updated = true;
        cs.prio = Some(prio);
        cs
    }

    pub fn with_description(self, desc: String) -> (r: Self)
        ensures
            r@ == (ChangesetView { description: Some(desc@), updated: true, ..self@ }),
    {
        let mut cs = self;
        cs.updated = true;
        cs.description = Some(desc);
        cs
    }

    pub fn with_context(self, cx: String) -> (r: Self)
        ensures
            r@ == (ChangesetView { context: Some(cx@), updated: true, ..self@ }),
    {
        let mut cs = self;
        cs.updated = true;
        cs.context = Some(cx);
        cs
    }

    pub fn with_tags(self, tags: Tags) -> (r: Self)
        ensures
            r@ == (ChangesetView { tags: Some(tags@), updated: true, ..self@ }),
    {
        let mut cs = self;
        cs.updated = true;
        cs.tags = Some(tags);
        cs
    }

    pub fn with_links(self, links: CSV<Link>) -> (r: Self)
        ensures
            r@ == (ChangesetView { links: Some(links@), updated: true, ..self@ }),
    {
        let mut cs = self;
        cs.updated = true;
        cs.links = Some(links);
        cs
    }
}

/// A changeset changes neither the identifier, the time of creation nor the
/// links of a todo, and one that sets nothing changes no field at all.
pub proof fn changeset_keeps_identity_and_links(cs: ChangesetView, t: TodoView)
    ensures
        cs.applied(t).id == t.id,
        cs.applied(t).created == t.created,
        cs.applied(t).links == t.links,
        ChangesetView::nothing().applied(t) == t,
{
}

} // verus!
