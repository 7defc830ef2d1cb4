use crate::model::todo::text_of;
use crate::model::{share_a_value, views_of, Status, Todo, TodoView};
use crate::text::same_text;
use vstd::prelude::*;

verus! {

/// Used to filter based on status.
#[derive(Debug)]
pub enum StatusFilter {
    /// Include any status.
    Any,
    /// Include all statuses != done.
    Relevant,
    /// Only the given status.
    Status(Status),
}

/// Used specifically to filter based on context.
#[derive(Debug)]
pub enum ContextFilter {
    /// Context doesn't matter.
    Any,
    /// Only todos that have no context.
    NoContext,
    /// Use the current context.
    Current,
    /// Context with a given name.
    Name(String),
}

/// Which contexts a filter lets through, as plain values.
pub enum ContextFilterView {
    Any,
    NoContext,
    Current,
    Name(Seq<char>),
}

impl View for ContextFilter {
    type V = ContextFilterView;

    open spec fn view(&self) -> ContextFilterView {
        match self {
            ContextFilter::Any => ContextFilterView::Any,
            ContextFilter::NoContext => ContextFilterView::NoContext,
            ContextFilter::Current => ContextFilterView::Current,
            ContextFilter::Name(n) => ContextFilterView::Name(n@),
        }
    }
}

/// Filter is used when listing todos. The default filter lets through the
/// todos that are not done and that belong to the current context, if one is
/// set.
#[derive(Debug)]
pub struct Filter {
    /// Include only todos with this status.
    pub status: StatusFilter,
    /// Include only todos with the given context.
    pub context: ContextFilter,
    /// Todos with at least one of the tags.
    pub tags: Option<Vec<String>>,
}

/// What a filter holds, as plain values.
pub struct FilterView {
    pub status: StatusFilter,
    pub context: ContextFilterView,
    pub tags: Option<Seq<Seq<char>>>,
}

impl View for Filter {
    type V = FilterView;

    open spec fn view(&self) -> FilterView {
        FilterView {
            status: self.status,
            context: self.context@,
            tags: match self.tags {
                Some(t) => Some(views_of(t@)),
                None => None,
            },
        }
    }
}

impl FilterView {
    /// The filter that lets through what is not done and belongs to the
    /// current context.
    pub open spec fn standard() -> FilterView {
        FilterView {
            status: StatusFilter::Relevant,
            context: ContextFilterView::Current,
            tags: None,
        }
    }

    /// True when the status of `t` passes.
    pub open spec fn accepts_status(self, t: TodoView) -> bool {
        match self.status {
            StatusFilter::Any => true,
            StatusFilter::Relevant => t.status != Status::Done,
            StatusFilter::Status(s) => t.status == s,
        }
    }

    /// True when the context of `t` passes, `current` being the current
    /// context.
    pub open spec fn accepts_context(self, t: TodoView, current: Option<Seq<char>>) -> bool {
        match self.context {
            ContextFilterView::Any => true,
            ContextFilterView::NoContext => t.context.is_none(),
            ContextFilterView::Current => match current {
                Some(c) => t.context == Some(c),
                None => true,
            },
            ContextFilterView::Name(n) => t.context == Some(n),
        }
    }

    /// True when the tags of `t` pass.
    pub open spec fn accepts_tags(self, t: TodoView) -> bool {
        match self.tags {
            Some(tags) => share_a_value(t.tags, tags),
            None => true,
        }
    }

    /// True when `t` passes on all three counts.
    pub open spec fn accepts(self, t: TodoView, current: Option<Seq<char>>) -> bool {
        self.accepts_status(t) && self.accepts_context(t, current) && self.accepts_tags(t)
    }

    /// The todos of `todos` that pass, in their order.
    pub open spec fn filtered(self, todos: Seq<TodoView>, current: Option<Seq<char>>) -> Seq<
        TodoView,
    > {
        todos.filter(|t: TodoView| self.accepts(t, current))
    }
}

impl Default for Filter {
    fn default() -> (r: Self)
        ensures
            r@ == FilterView::standard(),
    {
        Self { status: StatusFilter::Relevant, context: ContextFilter::Current, tags: None }
    }
}

impl Filter {
    pub fn status(self, f: StatusFilter) -> (r: Self)
        ensures
            r@ == (FilterView { status: f, ..self@ }),
    {
        let mut out = self;
        out.status = f;
        out
    }

    pub fn context(self, f: ContextFilter) -> (r: Self)
        ensures
            r@ == (FilterView { context: f@, ..self@ }),
    {
        let mut out = self;
        out.context = f;
        out
    }

    pub fn tags(self, tags: Vec<String>) -> (r: Self)
        ensures
            r@ == (FilterView { tags: Some(views_of(tags@)), ..self@ }),
    {
        let mut out = self;
        out.tags = Some(tags);
        out
    }

    /// True when `todo` passes this filter, `current` being the current
    /// context.
    pub fn accepts(&self, todo: &Todo, current: &Option<String>) -> (r: bool)
        ensures
            r == self@.accepts(todo@, text_of(*current)),
    {
        let status_ok = match &self.status {
            StatusFilter::Any => true,
            StatusFilter::Relevant => todo.status != Status::Done,
            StatusFilter::Status(status) => todo.status == *status,
        };
        let context_ok = match &self.context {
            ContextFilter::Any => true,
            ContextFilter::NoContext => todo.context.is_none(),
            ContextFilter::Current => match current {
                Some(curr) => match &todo.context {
                    Some(ctx) => same_text(ctx.as_str(), curr.as_str()),
                    None => false,
                },
                None => true,
            },
            ContextFilter::Name(ctx) => match &todo.context {
                Some(name) => same_text(ctx.as_str(), name.as_str()),
                None => false,
            },
        };
        let tags_ok = match &self.tags {
            Some(tags) => todo.tags.has_any(tags.as_slice()),
            None => true,
        };
        status_ok && context_ok && tags_ok
    }

    /// The todos that pass this filter, in their order.
    pub fn apply(&self, todos: Vec<Todo>, current_context: Option<String>) -> (r: Vec<Todo>)
        ensures
            views_of(r@) == self@.filtered(views_of(todos@), text_of(current_context)),
    {
        let mut out: Vec<Todo> = Vec::new();
        let mut i: usize = 0;
        let ghost all = views_of(todos@);
        let ghost keep = |t: TodoView| self@.accepts(t, text_of(current_context));
        while i < todos.len()
            invariant
                i <= todos@.len(),
                all == views_of(todos@),
                keep == (|t: TodoView| self@.accepts(t, text_of(current_context))),
                views_of(out@) == all.take(i as int).filter(keep),
            decreases todos@.len() - i,
        {
            proof {
                assert(all.take(i as int + 1) =~= all.take(i as int).push(all[i as int]));
                all.take(i as int).lemma_filter_push(all[i as int], keep);
            }
            if self.accepts(&todos[i], &current_context) {
                out.push(todos[i].duplicate());
                assert(views_of(out@) =~= all.take(i as int).filter(keep).push(all[i as int]));
            }
            i += 1;
        }
        assert(all.take(i as int) =~= all);
        out
    }
}

/// The filter that lets every status and every context through, and asks
/// for no tag, lets every todo through.
pub proof fn filter_any_keeps_all(f: FilterView, todos: Seq<TodoView>, current: Option<Seq<char>>)
    requires
        f.status is Any,
        f.context is Any,
        f.tags is None,
    ensures
        f.filtered(todos, current) == todos,
    decreases todos.len(),
{
    let keep = |t: TodoView| f.accepts(t, current);
    reveal(Seq::filter);
    if todos.len() > 0 {
        filter_any_keeps_all(f, todos.drop_last(), current);
        assert(todos.drop_last().push(todos.last()) =~= todos);
    }
    assert(todos.filter(keep) =~= todos);
}

/// What the default filter lets through is not done and, when a context is
/// current, belongs to it; and every such todo of the input is let through.
pub proof fn default_filter_hides_done_and_other_contexts(
    todos: Seq<TodoView>,
    current: Option<Seq<char>>,
)
    ensures
        forall|t: TodoView| #[trigger]
            FilterView::standard().filtered(todos, current).contains(t) <==> (todos.contains(t)
                && t.status != Status::Done && (current is Some ==> t.context == current)),
{
    let f = FilterView::standard();
    let keep = |t: TodoView| f.accepts(t, current);
    assert forall|t: TodoView| #[trigger]
        f.filtered(todos, current).contains(t) <==> (todos.contains(t) && t.status != Status::Done
            && (current is Some ==> t.context == current)) by {
        if todos.filter(keep).contains(t) {
            let i = todos.filter(keep).index_of(t);
            todos.lemma_filter_pred(keep, i);
            todos.lemma_filter_contains_rev(keep, t);
        }
        if todos.contains(t) && keep(t) {
            let i = todos.index_of(t);
            todos.lemma_filter_contains(keep, i);
        }
    }
}

/// Filter targets for pruning: a todo is a target when one of the
/// conditions that are set holds of it.
#[derive(Clone, Copy, Debug)]
pub struct PruneFilter {
    /// Include all todos that are done.
    pub done: bool,
    /// Include all todos created before this time.
    pub before: Option<i64>,
    /// Include all todos created after this time.
    pub after: Option<i64>,
}

impl Default for PruneFilter {
    fn default() -> (r: Self)
        ensures
            !r.done,
            r.before is None,
            r.after is None,
    {
        Self { done: false, before: None, after: None }
    }
}

impl PruneFilter {
    /// True when the todo `t` is to be pruned.
    pub open spec fn targets(self, t: TodoView) -> bool {
        (self.done && t.status == Status::Done) || (self.before matches Some(b) && b > t.created)
            || (self.after matches Some(a) && a < t.created)
    }

    pub fn with_done(self, done: bool) -> (r: Self)
        ensures
            r == (PruneFilter { done, ..self }),
    {
        Self { done, before: self.before, after: self.after }
    }

    pub fn with_before(self, before: i64) -> (r: Self)
        ensures
            r == (PruneFilter { before: Some(before), ..self }),
    {
        Self { done: self.done, before: Some(before), after: self.after }
    }

    pub fn with_after(self, after: i64) -> (r: Self)
        ensures
            r == (PruneFilter { after: Some(after), ..self }),
    {
        Self { done: self.done, before: self.before, after: Some(after) }
    }

    /// The todos that are to be pruned, in their order.
    pub fn apply(&self, todos: Vec<Todo>) -> (r: Vec<Todo>)
        ensures
            views_of(r@) == views_of(todos@).filter(|t: TodoView| self.targets(t)),
    {
        let mut out: Vec<Todo> = Vec::new();
        let mut i: usize = 0;
        let ghost all = views_of(todos@);
        let ghost keep = |t: TodoView| self.targets(t);
        while i < todos.len()
            invariant
                i <= todos@.len(),
                all == views_of(todos@),
                keep == (|t: TodoView| self.targets(t)),
                views_of(out@) == all.take(i as int).filter(keep),
            decreases todos@.len() - i,
        {
            proof {
                assert(all.take(i as int + 1) =~= all.take(i as int).push(all[i as int]));
                all.take(i as int).lemma_filter_push(all[i as int], keep);
            }
            let t = &todos[i];
            let hit = (self.done && t.is_done()) || (match self.before {
                Some(b) => b > t.created,
                None => false,
            }) || (match self.after {
                Some(a) => a < t.created,
                None => false,
            });
            if hit {
                out.push(t.duplicate());
                assert(views_of(out@) =~= all.take(i as int).filter(keep).push(all[i as int]));
            }
            i += 1;
        }
        assert(all.take(i as int) =~= all);
        out
    }
}

} // verus!
