use crate::error::{invalid, Error};
use crate::text::{lowercase_text, lowercased, same_text, trim_text, trimmed};
use vstd::prelude::*;
use vstd::string::*;

verus! {

/// Status represents the state of a todo.
#[derive(Clone, Copy, Debug, PartialEq, Eq, Structural)]
pub enum Status {
    /// A newly created todo.
    New,
    /// Todo is in progress.
    Started,
    /// The todo is completed.
    Done,
    /// This is blocked by another todo.
    Blocked,
}

/// The status that the keyword `word` names.
pub open spec fn status_of(word: Seq<char>) -> Option<Status> {
    if word == "new"@ {
        Some(Status::New)
    } else if word == "started"@ || word == "in-progress"@ {
        Some(Status::Started)
    } else if word == "done"@ {
        Some(Status::Done)
    } else if word == "blocked"@ {
        Some(Status::Blocked)
    } else {
        None
    }
}

impl Status {
    /// The keyword that names a status.
    pub open spec fn name(self) -> Seq<char> {
        match self {
            Status::New => "new"@,
            Status::Started => "started"@,
            Status::Done => "done"@,
            Status::Blocked => "blocked"@,
        }
    }

    /// The keyword that names this status.
    pub fn to_string(&self) -> (r: String)
        ensures
            r@ == self.name(),
    {
        match self {
            Status::New => String::from_str("new"),
            Status::Started => String::from_str("started"),
            Status::Done => String::from_str("done"),
            Status::Blocked => String::from_str("blocked"),
        }
    }

    /// The status that the keyword `word` names; the keyword is in lower
    /// case and has no white space around it.
    pub fn from_keyword(word: &str) -> (r: Result<Status, Error>)
        ensures
            match status_of(word@) {
                Some(s) => r is Ok && r.unwrap() == s,
                None => r is Err && invalid(r.unwrap_err(), "unknown status: "@ + word@),
            },
    {
        if same_text(word, "new") {
            Ok(Status::New)
        } else if same_text(word, "started") || same_text(word, "in-progress") {
            Ok(Status::Started)
        } else if same_text(word, "done") {
            Ok(Status::Done)
        } else if same_text(word, "blocked") {
            Ok(Status::Blocked)
        } else {
            Err(Error::InvalidValue(String::from_str("unknown status: ").concat(word)))
        }
    }

    /// The status that `value` names, in any case and with white space
    /// around it or not.
    pub fn try_from(value: &str) -> (r: Result<Status, Error>)
        ensures
            match status_of(trimmed(lowercased(value@))) {
                Some(s) => r is Ok && r.unwrap() == s,
                None => r is Err && invalid(r.unwrap_err(), "unknown status: "@ + value@),
            },
    {
        let lower = lowercase_text(value);
        let word = trim_text(lower.as_str());
        match Status::from_keyword(word.as_str()) {
            Ok(s) => Ok(s),
            Err(_) => Err(Error::InvalidValue(String::from_str("unknown status: ").concat(value))),
        }
    }

    /// The place of a status in a listing: the lower, the earlier.
    /// Started comes first, then New, Blocked and Done.
    pub open spec fn place(self) -> int {
        match self {
            Status::Started => 0,
            Status::New => 1,
            Status::Blocked => 2,
            Status::Done => 3,
        }
    }

    /// The place of this status in a listing: the lower, the earlier.
    pub fn rank(&self) -> (r: u8)
        ensures
            r == self.place(),
    {
        match self {
            Status::Started => 0,
            Status::New => 1,
            Status::Blocked => 2,
            Status::Done => 3,
        }
    }

    /// True when this status is listed strictly before `other`.
    pub fn sorts_before(&self, other: &Status) -> (r: bool)
        ensures
            r == (self.place() < other.place()),
    {
        self.rank() < other.rank()
    }
}

/// The places of two statuses are equal only for the same status, so the
/// order of statuses is total.
pub proof fn status_order_is_total(a: Status, b: Status)
    ensures
        a.place() == b.place() <==> a == b,
        a.place() < b.place() || b.place() < a.place() || a == b,
{
}

/// The keyword of a status names that status.
pub proof fn status_name_round_trip(s: Status)
    ensures
        status_of(s.name()) == Some(s),
{
    reveal_strlit("new");
    reveal_strlit("started");
    reveal_strlit("in-progress");
    reveal_strlit("done");
    reveal_strlit("blocked");
    assert("new"@.len() == 3 && "started"@.len() == 7 && "in-progress"@.len() == 11 && "done"@.len()
        == 4 && "blocked"@.len() == 7);
    assert("started"@[0] == 's');
    assert("blocked"@[0] == 'b');
}

/// The order of statuses in a listing: what comes first is less.
impl PartialOrd for Status {
    fn partial_cmp(&self, other: &Self) -> (r: Option<core::cmp::Ordering>) {
        let a = self.rank();
        let b = other.rank();
        if a < b {
            Some(core::cmp::Ordering::Less)
        } else if a == b {
            Some(core::cmp::Ordering::Equal)
        } else {
            Some(core::cmp::Ordering::Greater)
        }
    }
}

impl vstd::std_specs::cmp::PartialOrdSpecImpl for Status {
    open spec fn obeys_partial_cmp_spec() -> bool {
        true
    }

    open spec fn partial_cmp_spec(&self, other: &Self) -> Option<core::cmp::Ordering> {
        if self.place() < other.place() {
            Some(core::cmp::Ordering::Less)
        } else if self.place() == other.place() {
            Some(core::cmp::Ordering::Equal)
        } else {
            Some(core::cmp::Ordering::Greater)
        }
    }
}

} // verus!
