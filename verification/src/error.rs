use vstd::prelude::*;
use vstd::string::*;

verus! {

/// What can go wrong in this library.
#[derive(Debug)]
pub enum Error {
    /// A value could not be read: an unknown keyword, a tag that is too long,
    /// an identifier that is no number.
    InvalidValue(String),
    /// The operation is not allowed: a link to oneself, a circular link, a
    /// link to a todo that does not exist.
    InvalidOperation(String),
    /// No todo with that identifier, or no context with that name.
    NotFound(Option<String>),
    /// A context of that name exists already.
    AlreadyExists(String),
    /// The record store failed; the message is the store's own.
    Store(String),
}

/// The text that goes before the name of what was not found.
pub open spec fn not_found_prefix() -> Seq<char> {
    "not found: "@
}

/// True for the error that says, with the message `msg`, that a value
/// could not be read.
pub open spec fn invalid(e: Error, msg: Seq<char>) -> bool {
    e matches Error::InvalidValue(m) && m@ == msg
}

impl Error {
    /// An error of the record store with the given message.
    pub fn new(msg: String) -> (r: Self)
        ensures
            r == Error::Store(msg),
    {
        Error::Store(msg)
    }

    /// The message of this error, as it is shown to the user.
    pub open spec fn text(&self) -> Seq<char> {
        match self {
            Error::InvalidValue(m) => m@,
            Error::InvalidOperation(m) => m@,
            Error::NotFound(Some(what)) => not_found_prefix() + what@,
            Error::NotFound(None) => "not found"@,
            Error::AlreadyExists(m) => m@,
            Error::Store(m) => m@,
        }
    }

    /// The message of this error, as it is shown to the user.
    pub fn message(&self) -> (r: String)
        ensures
            r@ == self.text(),
    {
        match self {
            Error::InvalidValue(m) => m.clone(),
            Error::InvalidOperation(m) => m.clone(),
            Error::NotFound(Some(what)) => String::from_str("not found: ").concat(what.as_str()),
            Error::NotFound(None) => String::from_str("not found"),
            Error::AlreadyExists(m) => m.clone(),
            Error::Store(m) => m.clone(),
        }
    }

    /// True for an error that says something was not found.
    pub fn is_not_found(&self) -> (r: bool)
        ensures
            r == (self is NotFound),
    {
        match self {
            Error::NotFound(_) => true,
            _ => false,
        }
    }
}

} // verus!
