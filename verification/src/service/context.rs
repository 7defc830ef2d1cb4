//! Contexts: the named scopes that todos belong to.
use crate::error::{invalid, Error};
use crate::model::todo::text_of;
use crate::model::{views_of, without, Kind, KindView};
use crate::repository::{all_out_of_context, members, others};
use crate::service::{logged, Service};
use crate::text::{trim_text, trimmed};
use vstd::prelude::*;
use vstd::string::*;

verus! {

/// True when a context may have this name: from two to ten characters.
pub open spec fn name_fits(name: Seq<char>) -> bool {
    2 <= name.len() <= 10
}

/// What is said of a name that a context may not have.
pub open spec fn name_complaint(name: Seq<char>) -> Seq<char> {
    if name.len() == 0 {
        "invalid context name: empty"@
    } else if name.len() < 2 {
        "invalid context name: length less than 2"@
    } else {
        "invalid context name: length greater than 10"@
    }
}

/// What is said of a name that is taken.
pub open spec fn taken_complaint(name: Seq<char>) -> Seq<char> {
    "context name already exists: "@ + name
}

/// The name as it is, if a context may have it.
pub fn check_context_name(name: String) -> (r: Result<String, Error>)
    ensures
        name_fits(name@) ==> r is Ok && r.unwrap()@ == name@,
        !name_fits(name@) ==> r is Err && invalid(r.unwrap_err(), name_complaint(name@)),
{
    let n = name.as_str().unicode_len();
    if n == 0 {
        Err(Error::InvalidValue(String::from_str("invalid context name: empty")))
    } else if n < 2 {
        Err(Error::InvalidValue(String::from_str("invalid context name: length less than 2")))
    } else if n > 10 {
        Err(
            Error::InvalidValue(
                String::from_str("invalid context name: length greater than 10"),
            ),
        )
    } else {
        Ok(name)
    }
}

/// The name without the white space at its ends, if a context may have it.
pub fn validate_context_name(context: &str) -> (r: Result<String, Error>)
    ensures
        name_fits(trimmed(context@)) ==> r is Ok && r.unwrap()@ == trimmed(context@),
        !name_fits(trimmed(context@)) ==> r is Err && invalid(
            r.unwrap_err(),
            name_complaint(trimmed(context@)),
        ),
{
    check_context_name(trim_text(context))
}

/// The text behind an optional text, and the empty text where there is
/// none.
pub open spec fn text_or_empty(s: Option<Seq<char>>) -> Seq<char> {
    match s {
        Some(s) => s,
        None => Seq::<char>::empty(),
    }
}

impl Service {
    /// Adds a context under the trimmed name, unless the name may not be
    /// had or is taken.
    pub fn add_context(&mut self, context: &str) -> (r: Result<(), Error>)
        requires
            old(self).wf(),
        ensures
            final(self).wf(),
            final(self)@.todos == old(self)@.todos,
            final(self)@.next_id == old(self)@.next_id,
            final(self)@.current == old(self)@.current,
            !name_fits(trimmed(context@)) ==> r is Err && invalid(
                r.unwrap_err(),
                name_complaint(trimmed(context@)),
            ) && final(self)@ == old(self)@,
            name_fits(trimmed(context@)) && old(self)@.contexts.contains(trimmed(context@)) ==> r is Err
                && (r.unwrap_err() matches Error::AlreadyExists(m) && m@ == taken_complaint(
                trimmed(context@),
            )) && final(self)@ == old(self)@,
            name_fits(trimmed(context@)) && !old(self)@.contexts.contains(trimmed(context@)) ==> r is Ok
                && final(self)@.contexts == old(self)@.contexts.push(trimmed(context@)) && logged(
                old(self)@.events,
                final(self)@.events,
                KindView::AddContext(trimmed(context@)),
            ),
    {
        let name = match validate_context_name(context) {
            Ok(n) => n,
            Err(e) => {
                return Err(e);
            },
        };
        if self.repo.has_context(name.as_str()) {
            return Err(
                Error::AlreadyExists(
                    String::from_str("context name already exists: ").concat(name.as_str()),
                ),
            );
        }
        self.repo.add_context(name.as_str());
        self.log(Kind::AddContext(name));
        Ok(())
    }

    /// Makes the context of the trimmed name current, which must be known;
    /// nothing happens if it is current already.
    pub fn set_context(&mut self, context: &str) -> (r: Result<(), Error>)
        requires
            old(self).wf(),
        ensures
            final(self).wf(),
            final(self)@.todos == old(self)@.todos,
            final(self)@.next_id == old(self)@.next_id,
            final(self)@.contexts == old(self)@.contexts,
            !name_fits(trimmed(context@)) ==> r is Err && invalid(
                r.unwrap_err(),
                name_complaint(trimmed(context@)),
            ) && final(self)@ == old(self)@,
            name_fits(trimmed(context@)) && !old(self)@.contexts.contains(trimmed(context@)) ==> r is Err
                && (r.unwrap_err() matches Error::NotFound(Some(what)) && what@ == trimmed(
                context@,
            )) && final(self)@ == old(self)@,
            name_fits(trimmed(context@)) && old(self)@.contexts.contains(trimmed(context@)) ==> r is Ok
                && final(self)@.current == Some(trimmed(context@)) && if old(self)@.current == Some(
                trimmed(context@),
            ) {
                final(self)@ == old(self)@
            } else {
                logged(
                    old(self)@.events,
                    final(self)@.events,
                    KindView::SetContext {
                        before: text_or_empty(old(self)@.current),
                        after: trimmed(context@),
                    },
                )
            },
    {
        let name = match validate_context_name(context) {
            Ok(n) => n,
            Err(e) => {
                return Err(e);
            },
        };
        if !self.repo.has_context(name.as_str()) {
            return Err(Error::NotFound(Some(name)));
        }
        let current = self.repo.get_context();
        let before = match current {
            Some(c) => {
                if c == name {
                    return Ok(());
                }
                c
            },
            None => String::new(),
        };
        self.repo.set_context(name.as_str());
        self.log(Kind::SetContext { before, after: name });
        Ok(())
    }

    /// Leaves no context current.
    pub fn unset_context(&mut self) -> (r: Result<(), Error>)
        requires
            old(self).wf(),
        ensures
            final(self).wf(),
            r is Ok,
            final(self)@.todos == old(self)@.todos,
            final(self)@.next_id == old(self)@.next_id,
            final(self)@.contexts == old(self)@.contexts,
            final(self)@.current is None,
            match old(self)@.current {
                Some(c) => logged(
                    old(self)@.events,
                    final(self)@.events,
                    KindView::SetContext { before: c, after: Seq::<char>::empty() },
                ),
                None => final(self)@ == old(self)@,
            },
    {
        match self.repo.get_context() {
            Some(c) => {
                self.repo.unset_context();
                self.log(Kind::SetContext { before: c, after: String::new() });
            },
            None => {},
        }
        Ok(())
    }

    /// The current context, if one is set.
    pub fn get_context(&self) -> (r: Result<Option<String>, Error>)
        ensures
            r is Ok,
            text_of(r.unwrap()) == self@.current,
    {
        Ok(self.repo.get_context())
    }

    /// The names of all contexts, in the order in which they were added.
    pub fn list_contexts(&self) -> (r: Result<Vec<String>, Error>)
        ensures
            r is Ok,
            views_of(r.unwrap()@) == self@.contexts,
    {
        Ok(self.repo.get_contexts())
    }

    /// Removes the context `context`. If it is the current context, none is
    /// current afterwards. With `cascade` the todos of the context are
    /// removed with it; without, they stay and lose their context. The name
    /// goes last.
    pub fn remove_context(&mut self, context: &str, cascade: bool) -> (r: Result<(), Error>)
        requires
            old(self).wf(),
        ensures
            final(self).wf(),
            r is Ok,
            final(self)@.next_id == old(self)@.next_id,
            final(self)@.current == if old(self)@.current == Some(context@) {
                None
            } else {
                old(self)@.current
            },
            final(self)@.todos == if cascade {
                others(old(self)@.todos, context@)
            } else {
                all_out_of_context(old(self)@.todos, context@)
            },
            final(self)@.contexts == without(old(self)@.contexts, context@),
            logged(
                old(self)@.events,
                final(self)@.events,
                KindView::RemoveContext(context@, members(old(self)@.todos, context@)),
            ),
    {
        match self.repo.get_context() {
            Some(c) => {
                if crate::text::same_text(c.as_str(), context) {
                    self.repo.unset_context();
                }
            },
            None => {},
        }
        let todos = if cascade {
            self.repo.remove_todos_in(context)
        } else {
            self.repo.detach_todos_from(context)
        };
        self.repo.remove_context(context);
        self.log(Kind::RemoveContext(context.to_owned(), todos));
        Ok(())
    }
}

} // verus!
