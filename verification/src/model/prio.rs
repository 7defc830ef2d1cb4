use crate::error::{invalid, Error};
use crate::text::{lowercase_text, lowercased, same_text};
use vstd::prelude::*;
use vstd::string::*;

verus! {

/// Used to set a priority on a todo.
#[derive(Clone, Copy, Debug, PartialEq, Eq, Structural)]
pub enum Prio {
    Low,
    Normal,
    High,
    Critical,
}

/// The priority that the keyword `word` names.
pub open spec fn prio_of(word: Seq<char>) -> Option<Prio> {
    if word == "low"@ {
        Some(Prio::Low)
    } else if word == "normal"@ {
        Some(Prio::Normal)
    } else if word == "high"@ {
        Some(Prio::High)
    } else if word == "critical"@ {
        Some(Prio::Critical)
    } else {
        None
    }
}

impl Prio {
    /// The keyword that names a priority.
    pub open spec fn name(self) -> Seq<char> {
        match self {
            Prio::Low => "low"@,
            Prio::Normal => "normal"@,
            Prio::High => "high"@,
            Prio::Critical => "critical"@,
        }
    }

    /// The keyword that names this priority.
    pub fn to_string(&self) -> (r: String)
        ensures
            r@ == self.name(),
    {
        match self {
            Prio::Low => String::from_str("low"),
            Prio::Normal => String::from_str("normal"),
            Prio::High => String::from_str("high"),
            Prio::Critical => String::from_str("critical"),
        }
    }

    /// The priority that the keyword `word` names; the keyword is in lower
    /// case.
    pub fn from_keyword(word: &str) -> (r: Result<Prio, Error>)
        ensures
            match prio_of(word@) {
                Some(p) => r is Ok && r.unwrap() == p,
                None => r is Err && invalid(r.unwrap_err(), "invalid prio value: "@ + word@),
            },
    {
        if same_text(word, "low") {
            Ok(Prio::Low)
        } else if same_text(word, "normal") {
            Ok(Prio::Normal)
        } else if same_text(word, "high") {
            Ok(Prio::High)
        } else if same_text(word, "critical") {
            Ok(Prio::Critical)
        } else {
            Err(Error::InvalidValue(String::from_str("invalid prio value: ").concat(word)))
        }
    }

    /// The priority that `value` names, in any case.
    pub fn try_from(value: &str) -> (r: Result<Prio, Error>)
        ensures
            match prio_of(lowercased(value@)) {
                Some(p) => r is Ok && r.unwrap() == p,
                None => r is Err && invalid(r.unwrap_err(), "invalid prio value: "@ + value@),
            },
    {
        let lower = lowercase_text(value);
        match Prio::from_keyword(lower.as_str()) {
            Ok(p) => Ok(p),
            Err(_) => Err(
                Error::InvalidValue(String::from_str("invalid prio value: ").concat(value)),
            ),
        }
    }

    /// The place of a priority in a listing: the lower, the earlier.
    /// Critical comes first, then High, Normal and Low.
    pub open spec fn place(self) -> int {
        match self {
            Prio::Critical => 0,
            Prio::High => 1,
            Prio::Normal => 2,
            Prio::Low => 3,
        }
    }

    /// The place of this priority in a listing: the lower, the earlier.
    pub fn rank(&self) -> (r: u8)
        ensures
            r == self.place(),
    {
        match self {
            Prio::Critical => 0,
            Prio::High => 1,
            Prio::Normal => 2,
            Prio::Low => 3,
        }
    }

    /// True when this priority is listed strictly before `other`.
    pub fn sorts_before(&self, other: &Prio) -> (r: bool)
        ensures
            r == (self.place() < other.place()),
    {
        self.rank() < other.rank()
    }
}

/// The places of two priorities are equal only for the same priority, so the
/// order of priorities is total.
pub proof fn prio_order_is_total(a: Prio, b: Prio)
    ensures
        a.place() == b.place() <==> a == b,
        a.place() < b.place() || b.place() < a.place() || a == b,
{
}

/// The keyword of a priority names that priority.
pub proof fn prio_name_round_trip(p: Prio)
    ensures
        prio_of(p.name()) == Some(p),
{
    reveal_strlit("low");
    reveal_strlit("normal");
    reveal_strlit("high");
    reveal_strlit("critical");
    assert("low"@.len() == 3 && "normal"@.len() == 6 && "high"@.len() == 4 && "critical"@.len()
        == 8);
}

/// The order of priorities in a listing: what comes first is less.
impl PartialOrd for Prio {
    fn partial_cmp(&self, other: &Self) -> (r: Option<core::cmp::Ordering>) {
        let a = self.rank();
        let b = other.rank();
        if a < b {
            Some(core::cmp::Ordering::Less)
        } else if a == b {
            Some(core::cmp::Ordering::Equal)
        } else {
            Some(core::cmp::Ordering::Greater)
        }
    }
}

impl vstd::std_specs::cmp::PartialOrdSpecImpl for Prio {
    open spec fn obeys_partial_cmp_spec() -> bool {
        true
    }

    open spec fn partial_cmp_spec(&self, other: &Self) -> Option<core::cmp::Ordering> {
        if self.place() < other.place() {
            Some(core::cmp::Ordering::Less)
        } else if self.place() == other.place() {
            Some(core::cmp::Ordering::Equal)
        } else {
            Some(core::cmp::Ordering::Greater)
        }
    }
}

} // verus!
