use crate::error::{invalid, Error};
use crate::text::{
    decimal, fields, id_text, join, joined, parse_u16, parsed_u16, split_fields, trim_text,
    trimmed,
};
use vstd::prelude::*;
use vstd::string::*;

pub mod event;
pub mod link;
pub mod prio;
pub mod status;
pub mod tags;
pub mod todo;

pub use event::{Action, Event, EventView, Kind, KindView};
pub use link::Link;
pub use prio::Prio;
pub use status::Status;
pub use tags::Tags;
pub use todo::{Todo, TodoView};

verus! {

/// An identifier by which a todo is referenced.
#[derive(Clone, Copy, Debug, PartialEq, Eq, Structural)]
pub struct ID(pub u16);

impl ID {
    pub fn new(id: u16) -> (r: Self)
        ensures
            r == ID(id),
    {
        Self(id)
    }

    /// The identifier that the text stands for: a number in decimal digits.
    pub fn try_from(value: &str) -> (r: Result<ID, Error>)
        ensures
            match parsed_u16(value@) {
                Some(n) => r is Ok && r.unwrap() == ID(n),
                None => r is Err && invalid(r.unwrap_err(), "invalid id: "@ + value@),
            },
    {
        match parse_u16(value) {
            Some(id) => Ok(ID::new(id)),
            None => Err(Error::InvalidValue(String::from_str("invalid id: ").concat(value))),
        }
    }

    /// The number of this identifier in decimal digits.
    pub fn to_string(&self) -> (r: String)
        ensures
            r@ == decimal(self.0 as nat),
    {
        id_text(*self)
    }

    /// The number behind this identifier.
    pub fn value(&self) -> (r: u16)
        ensures
            r == self.0,
    {
        self.0
    }
}

/// A value that is stored as text and read back from it.
pub trait Code: Sized + View {
    /// The text as which a value is stored.
    spec fn encoded(v: Self::V) -> Seq<char>;

    /// The value that a text stands for, if it stands for one.
    spec fn decoded(s: Seq<char>) -> Option<Self::V>;

    /// The text as which this value is stored.
    fn encode(&self) -> (r: String)
        ensures
            r@ == Self::encoded(self@),
    ;

    /// The value that `s` stands for, if it stands for one.
    fn decode(s: &str) -> (r: Option<Self>)
        ensures
            match Self::decoded(s@) {
                Some(v) => r is Some && r.unwrap()@ == v,
                None => r is None,
            },
    ;
}

impl Code for String {
    open spec fn encoded(v: Seq<char>) -> Seq<char> {
        v
    }

    open spec fn decoded(s: Seq<char>) -> Option<Seq<char>> {
        Some(s)
    }

    fn encode(&self) -> (r: String) {
        self.clone()
    }

    fn decode(s: &str) -> (r: Option<Self>) {
        Some(s.to_owned())
    }
}

/// A value that a `CSV` can hold: it can be stored as text, compared,
/// copied and shown.
pub trait Item: Code {
    /// The text as which a value is shown.
    spec fn shown(v: Self::V) -> Seq<char>;

    /// The text as which this value is shown.
    fn display(&self) -> (r: String)
        ensures
            r@ == Self::shown(self@),
    ;

    /// True when both values stand for the same thing.
    fn same(&self, other: &Self) -> (r: bool)
        ensures
            r == (self@ == other@),
    ;

    /// A copy of this value.
    fn duplicate(&self) -> (r: Self)
        ensures
            r@ == self@,
    ;
}

impl Item for String {
    open spec fn shown(v: Seq<char>) -> Seq<char> {
        v
    }

    fn display(&self) -> (r: String) {
        self.clone()
    }

    fn same(&self, other: &Self) -> (r: bool) {
        *self == *other
    }

    fn duplicate(&self) -> (r: Self) {
        self.clone()
    }
}

impl Item for Link {
    open spec fn shown(v: Link) -> Seq<char> {
        v.shown()
    }

    fn display(&self) -> (r: String) {
        self.to_string()
    }

    fn same(&self, other: &Self) -> (r: bool) {
        *self == *other
    }

    fn duplicate(&self) -> (r: Self) {
        *self
    }
}

/// An ordered collection of values that is written as one line of text, the
/// values separated by commas.
#[derive(Debug)]
pub struct CSV<T: Item>(pub Vec<T>);

impl<T: Item> View for CSV<T> {
    type V = Seq<T::V>;

    open spec fn view(&self) -> Seq<T::V> {
        Seq::new(self.0@.len(), |i: int| self.0@[i]@)
    }
}

/// True when the two sequences have a value in common.
pub open spec fn share_a_value<V>(a: Seq<V>, b: Seq<V>) -> bool {
    exists|i: int, j: int| 0 <= i < a.len() && 0 <= j < b.len() && a[i] == b[j]
}

/// `s` without every occurrence of `v`.
pub open spec fn without<V>(s: Seq<V>, v: V) -> Seq<V> {
    s.filter(|x: V| x != v)
}

/// `s` with `v` at its end, unless `s` holds `v` already.
pub open spec fn with_once<V>(s: Seq<V>, v: V) -> Seq<V> {
    if s.contains(v) {
        s
    } else {
        s.push(v)
    }
}

/// The views of the values of a slice, in order.
pub open spec fn views_of<T: View>(s: Seq<T>) -> Seq<T::V> {
    Seq::new(s.len(), |i: int| s[i]@)
}

/// The fields of a line without the white space at their ends, the empty
/// ones left out.
pub open spec fn kept_fields(parts: Seq<Seq<char>>) -> Seq<Seq<char>> {
    parts.map_values(|f: Seq<char>| trimmed(f)).filter(|f: Seq<char>| f.len() > 0)
}

/// True when every one of `parts` stands for a value.
pub open spec fn all_decode<T: Code>(parts: Seq<Seq<char>>) -> bool {
    forall|i: int| 0 <= i < parts.len() ==> T::decoded(#[trigger] parts[i]) is Some
}

/// The values that `parts` stand for, in order.
pub open spec fn decoded_all<T: Code>(parts: Seq<Seq<char>>) -> Seq<T::V> {
    Seq::new(parts.len(), |i: int| T::decoded(parts[i]).unwrap())
}

/// The texts as which `values` are stored, in order.
pub open spec fn encoded_all<T: Code>(values: Seq<T::V>) -> Seq<Seq<char>> {
    Seq::new(values.len(), |i: int| T::encoded(values[i]))
}

/// The texts as which `values` are shown, in order.
pub open spec fn shown_all<T: Item>(values: Seq<T::V>) -> Seq<Seq<char>> {
    Seq::new(values.len(), |i: int| T::shown(values[i]))
}

/// The fields of `parts` that are not empty once trimmed, trimmed.
pub fn keep_fields(parts: &Vec<String>) -> (r: Vec<String>)
    ensures
        views_of(r@) == kept_fields(views_of(parts@)),
{
    let mut out: Vec<String> = Vec::new();
    let mut i: usize = 0;
    let ghost all = views_of(parts@).map_values(|f: Seq<char>| trimmed(f));
    let ghost keep = |f: Seq<char>| f.len() > 0;
    while i < parts.len()
        invariant
            i <= parts@.len(),
            all == views_of(parts@).map_values(|f: Seq<char>| trimmed(f)),
            keep == (|f: Seq<char>| f.len() > 0),
            views_of(out@) == all.take(i as int).filter(keep),
        decreases parts@.len() - i,
    {
        proof {
            assert(all.take(i as int + 1) =~= all.take(i as int).push(all[i as int]));
            all.take(i as int).lemma_filter_push(all[i as int], keep);
        }
        let t = trim_text(parts[i].as_str());
        if t.as_str().unicode_len() > 0 {
            out.push(t);
            assert(views_of(out@) =~= all.take(i as int).filter(keep).push(all[i as int]));
        }
        i += 1;
    }
    assert(all.take(i as int) =~= all);
    out
}

impl<T: Item> CSV<T> {
    /// The values that the fields `parts` stand for, if each stands for
    /// one.
    pub fn from_fields(parts: &Vec<String>) -> (r: Result<Self, Error>)
        ensures
            all_decode::<T>(views_of(parts@)) ==> (r matches Ok(v) && v@ == decoded_all::<T>(views_of(parts@))),
            !all_decode::<T>(views_of(parts@)) ==> (r matches Err(Error::InvalidValue(_))),
    {
        let mut values: Vec<T> = Vec::new();
        let mut i: usize = 0;
        let ghost all = views_of(parts@);
        while i < parts.len()
            invariant
                i <= parts@.len(),
                all == views_of(parts@),
                values@.len() == i,
                forall|k: int| 0 <= k < i ==> T::decoded(#[trigger] all[k]) == Some(values@[k]@),
            decreases parts@.len() - i,
        {
            match T::decode(parts[i].as_str()) {
                Some(item) => {
                    values.push(item);
                },
                None => {
                    assert(T::decoded(all[i as int]) is None);
                    return Err(
                        Error::InvalidValue(
                            String::from_str("invalid value: ").concat(parts[i].as_str()),
                        ),
                    );
                },
            }
            i += 1;
        }
        let r = Self(values);
        assert(r@ =~= decoded_all::<T>(all));
        Ok(r)
    }

    /// The values that a line of text stands for: its fields between
    /// commas, trimmed, the empty ones left out.
    pub fn try_from(value: String) -> (r: Result<Self, Error>)
        ensures
            all_decode::<T>(kept_fields(fields(value@, ','))) ==> (r matches Ok(v) && v@ == decoded_all::<T>(
                kept_fields(fields(value@, ',')),
            )),
            !all_decode::<T>(kept_fields(fields(value@, ','))) ==> (r matches Err(Error::InvalidValue(_))),
    {
        let parts = split_fields(value.as_str(), ',');
        let kept = keep_fields(&parts);
        Self::from_fields(&kept)
    }

    /// The values that a line of text stands for, or `None` where a field
    /// stands for none.
    pub fn decode(s: &str) -> (r: Option<Self>)
        ensures
            all_decode::<T>(kept_fields(fields(s@, ','))) ==> r is Some && r.unwrap()@
                == decoded_all::<T>(kept_fields(fields(s@, ','))),
            !all_decode::<T>(kept_fields(fields(s@, ','))) ==> r is None,
    {
        match Self::try_from(s.to_owned()) {
            Ok(v) => Some(v),
            Err(_) => None,
        }
    }

    /// The line of text as which these values are stored: each as it is
    /// stored, with commas between them.
    pub fn encode(&self) -> (r: String)
        ensures
            r@ == joined(encoded_all::<T>(self@), ","@),
    {
        let mut parts: Vec<String> = Vec::new();
        let mut i: usize = 0;
        while i < self.0.len()
            invariant
                i <= self.0@.len(),
                parts@.len() == i,
                forall|k: int| 0 <= k < i ==> (#[trigger] parts@[k])@ == T::encoded(self@[k]),
            decreases self.0@.len() - i,
        {
            parts.push(self.0[i].encode());
            i += 1;
        }
        assert(views_of(parts@) =~= encoded_all::<T>(self@));
        join(&parts, ",")
    }

    /// The line of text as which these values are shown: each as it is
    /// shown, with a comma and a blank between them.
    pub fn to_string(&self) -> (r: String)
        ensures
            r@ == joined(shown_all::<T>(self@), ", "@),
    {
        let parts = self.display_values();
        join(&parts, ", ")
    }

    /// The texts as which the values are shown, in order.
    pub fn display_values(&self) -> (r: Vec<String>)
        ensures
            views_of(r@) == shown_all::<T>(self@),
    {
        let mut parts: Vec<String> = Vec::new();
        let mut i: usize = 0;
        while i < self.0.len()
            invariant
                i <= self.0@.len(),
                parts@.len() == i,
                forall|k: int| 0 <= k < i ==> (#[trigger] parts@[k])@ == T::shown(self@[k]),
            decreases self.0@.len() - i,
        {
            parts.push(self.0[i].display());
            i += 1;
        }
        assert(views_of(parts@) =~= shown_all::<T>(self@));
        parts
    }

    pub fn new(v: Vec<T>) -> (r: Self)
        ensures
            r.0 == v,
    {
        Self(v)
    }

    pub fn empty() -> (r: Self)
        ensures
            r@ == Seq::<T::V>::empty(),
    {
        let r = Self(Vec::new());
        assert(r@ =~= Seq::<T::V>::empty());
        r
    }

    pub fn push(&mut self, item: T)
        ensures
            final(self)@ == old(self)@.push(item@),
    {
        self.0.push(item);
        assert(self@ =~= old(self)@.push(item@));
    }

    pub fn is_empty(&self) -> (r: bool)
        ensures
            r == (self@.len() == 0),
    {
        self.0.is_empty()
    }

    pub fn len(&self) -> (r: usize)
        ensures
            r == self@.len(),
    {
        self.0.len()
    }

    /// True when this collection holds `item`.
    pub fn contains(&self, item: &T) -> (r: bool)
        ensures
            r == self@.contains(item@),
    {
        let mut i: usize = 0;
        while i < self.0.len()
            invariant
                i <= self.0@.len(),
                forall|k: int| 0 <= k < i ==> self@[k] != item@,
            decreases self.0@.len() - i,
        {
            if self.0[i].same(item) {
                assert(self@[i as int] == item@);
                return true;
            }
            i += 1;
        }
        false
    }

    /// True when this collection holds one of `values`.
    pub fn has_any(&self, values: &[T]) -> (r: bool)
        ensures
            r == share_a_value(self@, views_of(values@)),
    {
        let mut j: usize = 0;
        while j < values.len()
            invariant
                j <= values@.len(),
                forall|k: int| 0 <= k < j ==> !self@.contains(#[trigger] values@[k]@),
            decreases values@.len() - j,
        {
            if self.contains(&values[j]) {
                let ghost i = self@.index_of(values@[j as int]@);
                assert(0 <= i < self@.len() && self@[i] == views_of(values@)[j as int]);
                return true;
            }
            j += 1;
        }
        assert(!share_a_value(self@, views_of(values@))) by {
            if share_a_value(self@, views_of(values@)) {
                let (i, k) = choose|i: int, k: int|
                    0 <= i < self@.len() && 0 <= k < values@.len() && self@[i] == views_of(
                        values@,
                    )[k];
                assert(self@[i] == values@[k]@);
                assert(self@.contains(values@[k]@));
            }
        }
        false
    }

    /// Adds `item` at the end, unless the collection holds it already.
    pub fn push_not_exists(&mut self, item: T)
        ensures
            final(self)@ == with_once(old(self)@, item@),
    {
        if !self.contains(&item) {
            self.push(item);
        }
    }

    /// This collection without every occurrence of `item`.
    pub fn remove(&self, item: &T) -> (r: Self)
        ensures
            r@ == without(self@, item@),
    {
        let mut out: Vec<T> = Vec::new();
        let mut i: usize = 0;
        let ghost keep = |x: T::V| x != item@;
        while i < self.0.len()
            invariant
                i <= self.0@.len(),
                keep == (|x: T::V| x != item@),
                views_of(out@) == self@.take(i as int).filter(keep),
            decreases self.0@.len() - i,
        {
            proof {
                assert(self@.take(i as int + 1) =~= self@.take(i as int).push(self@[i as int]));
                self@.take(i as int).lemma_filter_push(self@[i as int], keep);
            }
            if !self.0[i].same(item) {
                let copy = self.0[i].duplicate();
                out.push(copy);
                assert(views_of(out@) =~= self@.take(i as int).filter(keep).push(
                    self@[i as int],
                ));
            }
            i += 1;
        }
        assert(self@.take(i as int) =~= self@);
        let r = Self(out);
        assert(r@ =~= views_of(out@));
        r
    }

    /// A copy of this collection.
    pub fn duplicate(&self) -> (r: Self)
        ensures
            r@ == self@,
    {
        let mut out: Vec<T> = Vec::new();
        let mut i: usize = 0;
        while i < self.0.len()
            invariant
                i <= self.0@.len(),
                out@.len() == i,
                forall|k: int| 0 <= k < i ==> (#[trigger] out@[k])@ == self@[k],
            decreases self.0@.len() - i,
        {
            out.push(self.0[i].duplicate());
            i += 1;
        }
        let r = Self(out);
        assert(r@ =~= self@);
        r
    }
}

} // verus!
