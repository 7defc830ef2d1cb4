use super::{Code, ID};
use crate::error::{invalid, Error};
use crate::text::{
    decimal, first_at, id_text, lowercase_text, lowercased, parsed_u16, same_text, split_once_at,
};
use vstd::prelude::*;
use vstd::string::*;

verus! {

/// A directed relation from the todo that holds the link to another todo.
#[derive(Clone, Copy, Debug, PartialEq, Eq, Structural)]
pub enum Link {
    /// The holder blocks the named todo.
    Blocks(ID),
    /// The holder is blocked by the named todo.
    BlockedBy(ID),
    /// The holder relates to the named todo; the other side holds nothing.
    RelatesTo(ID),
}

impl View for Link {
    type V = Link;

    open spec fn view(&self) -> Link {
        *self
    }
}

/// The link of the kind that `word` names, pointing to `id`.
pub open spec fn link_kind(word: Seq<char>, id: ID) -> Option<Link> {
    if word == "blocks"@ {
        Some(Link::Blocks(id))
    } else if word == "blocked-by"@ || word == "blocked_by"@ || word == "blockedby"@ {
        Some(Link::BlockedBy(id))
    } else if word == "relates-to"@ || word == "relates_to"@ || word == "relatesto"@ {
        Some(Link::RelatesTo(id))
    } else {
        None
    }
}

/// The link that a text stands for: the name of a kind in any case, a
/// colon, and the number of a todo.
pub open spec fn link_of(value: Seq<char>) -> Option<Link> {
    if !value.contains(':') {
        None
    } else {
        match parsed_u16(value.skip(first_at(value, ':') + 1)) {
            Some(n) => link_kind(lowercased(value.take(first_at(value, ':'))), ID(n)),
            None => None,
        }
    }
}

/// What is said of a text that stands for no link: that it is no link
/// where it has no colon, that its number is none where it has none, and
/// else that its kind is none.
pub open spec fn link_complaint(value: Seq<char>) -> Seq<char> {
    if !value.contains(':') {
        "invalid link: "@ + value
    } else if parsed_u16(value.skip(first_at(value, ':') + 1)) is None {
        "invalid id: "@ + value.skip(first_at(value, ':') + 1)
    } else {
        "invalid link: "@ + lowercased(value.take(first_at(value, ':')))
    }
}

impl Code for Link {
    open spec fn encoded(v: Link) -> Seq<char> {
        match v {
            Link::Blocks(id) => "blocks:"@ + decimal(id.0 as nat),
            Link::BlockedBy(id) => "blockedby:"@ + decimal(id.0 as nat),
            Link::RelatesTo(id) => "relatesto:"@ + decimal(id.0 as nat),
        }
    }

    open spec fn decoded(s: Seq<char>) -> Option<Link> {
        link_of(s)
    }

    fn encode(&self) -> (r: String) {
        match self {
            Link::Blocks(id) => String::from_str("blocks:").concat(id_text(*id).as_str()),
            Link::BlockedBy(id) => String::from_str("blockedby:").concat(id_text(*id).as_str()),
            Link::RelatesTo(id) => String::from_str("relatesto:").concat(id_text(*id).as_str()),
        }
    }

    fn decode(s: &str) -> (r: Option<Self>) {
        match Link::try_from(s) {
            Ok(l) => Some(l),
            Err(_) => None,
        }
    }
}

impl Link {
    /// The text as which a link is shown.
    pub open spec fn shown(self) -> Seq<char> {
        match self {
            Link::Blocks(id) => "blocks "@ + decimal(id.0 as nat),
            Link::BlockedBy(id) => "blocked by "@ + decimal(id.0 as nat),
            Link::RelatesTo(id) => "relates to "@ + decimal(id.0 as nat),
        }
    }

    /// The text as which this link is shown.
    pub fn to_string(&self) -> (r: String)
        ensures
            r@ == self.shown(),
    {
        match self {
            Link::Blocks(id) => String::from_str("blocks ").concat(id_text(*id).as_str()),
            Link::BlockedBy(id) => String::from_str("blocked by ").concat(id_text(*id).as_str()),
            Link::RelatesTo(id) => String::from_str("relates to ").concat(id_text(*id).as_str()),
        }
    }

    /// The link of the kind that `kind` names, in lower case, pointing to
    /// `id`.
    pub fn from_parts(kind: &str, id: ID) -> (r: Result<Link, Error>)
        ensures
            match link_kind(kind@, id) {
                Some(l) => r is Ok && r.unwrap() == l,
                None => r is Err && invalid(r.unwrap_err(), "invalid link: "@ + kind@),
            },
    {
        if same_text(kind, "blocks") {
            Ok(Link::Blocks(id))
        } else if same_text(kind, "blocked-by") || same_text(kind, "blocked_by") || same_text(
            kind,
            "blockedby",
        ) {
            Ok(Link::BlockedBy(id))
        } else if same_text(kind, "relates-to") || same_text(kind, "relates_to") || same_text(
            kind,
            "relatesto",
        ) {
            Ok(Link::RelatesTo(id))
        } else {
            Err(Error::InvalidValue(String::from_str("invalid link: ").concat(kind)))
        }
    }

    /// The link that `value` stands for: the name of a kind in any case, a
    /// colon, and the number of a todo.
    pub fn try_from(value: &str) -> (r: Result<Link, Error>)
        ensures
            match link_of(value@) {
                Some(l) => r is Ok && r.unwrap() == l,
                None => r is Err && invalid(r.unwrap_err(), link_complaint(value@)),
            },
    {
        let (a, b) = match split_once_at(value, ':') {
            Some(parts) => parts,
            None => {
                return Err(Error::InvalidValue(String::from_str("invalid link: ").concat(value)));
            },
        };
        let id = match ID::try_from(b.as_str()) {
            Ok(id) => id,
            Err(e) => {
                return Err(e);
            },
        };
        let kind = lowercase_text(a.as_str());
        Link::from_parts(kind.as_str(), id)
    }

    /// The link that the other todo of a blocking pair holds, when the holder
    /// of `self` is `other`; a relation has no such counterpart.
    pub open spec fn counterpart(self, other: ID) -> Option<Link> {
        match self {
            Link::Blocks(_) => Some(Link::BlockedBy(other)),
            Link::BlockedBy(_) => Some(Link::Blocks(other)),
            Link::RelatesTo(_) => None,
        }
    }

    /// The todo that this link points to.
    pub open spec fn target(self) -> ID {
        match self {
            Link::Blocks(id) => id,
            Link::BlockedBy(id) => id,
            Link::RelatesTo(id) => id,
        }
    }

    /// This kind of link, pointing to `id`.
    pub open spec fn retarget(self, id: ID) -> Link {
        match self {
            Link::Blocks(_) => Link::Blocks(id),
            Link::BlockedBy(_) => Link::BlockedBy(id),
            Link::RelatesTo(_) => Link::RelatesTo(id),
        }
    }

    /// Returns the counterpart of self: for `Blocks(_)` held by `other` this
    /// is `BlockedBy(other)`, and the reverse.
    pub fn bi_directional(&self, other: ID) -> (r: Option<Self>)
        ensures
            r == self.counterpart(other),
    {
        match self {
            Link::Blocks(_) => Some(Link::BlockedBy(other)),
            Link::BlockedBy(_) => Some(Link::Blocks(other)),
            Link::RelatesTo(_) => None,
        }
    }

    pub fn with_id(&self, id: ID) -> (r: Self)
        ensures
            r == self.retarget(id),
    {
        match self {
            Link::Blocks(_) => Link::Blocks(id),
            Link::BlockedBy(_) => Link::BlockedBy(id),
            Link::RelatesTo(_) => Link::RelatesTo(id),
        }
    }

    pub fn id(&self) -> (r: ID)
        ensures
            r == self.target(),
    {
        match self {
            Link::Blocks(id) => *id,
            Link::BlockedBy(id) => *id,
            Link::RelatesTo(id) => *id,
        }
    }

    pub fn is_blocks(&self) -> (r: bool)
        ensures
            r == (self is Blocks),
    {
        match self {
            Link::Blocks(_) => true,
            _ => false,
        }
    }

    pub fn is_blocked_by(&self) -> (r: bool)
        ensures
            r == (self is BlockedBy),
    {
        match self {
            Link::BlockedBy(_) => true,
            _ => false,
        }
    }
}

/// The counterpart of a counterpart is the link one started from, with the
/// two todos exchanged.
pub proof fn counterpart_is_involution(link: Link, holder: ID)
    requires
        !(link is RelatesTo),
    ensures
        link.counterpart(holder) is Some,
        link.counterpart(holder).unwrap().counterpart(link.target()) == Some(link),
{
}

} // verus!
