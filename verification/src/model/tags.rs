use super::{share_a_value, views_of};
use crate::error::{invalid, Error};
use crate::text::{join, joined, split_words, words};
use vstd::prelude::*;
use vstd::string::*;

verus! {

/// The most characters that a tag may have.
pub const MAX_TAG_LEN: usize = 20;

/// The tags of a todo, in the order in which they were given.
#[derive(Debug)]
pub struct Tags {
    pub tags: Vec<String>,
}

impl View for Tags {
    type V = Seq<Seq<char>>;

    open spec fn view(&self) -> Seq<Seq<char>> {
        views_of(self.tags@)
    }
}

/// What is said of tags of which one is too long.
pub open spec fn tag_complaint() -> Seq<char> {
    "invalid tag found: length greater than 20"@
}

/// True when no tag is longer than a tag may be.
pub open spec fn tags_fit(tags: Seq<Seq<char>>) -> bool {
    forall|i: int| 0 <= i < tags.len() ==> (#[trigger] tags[i]).len() <= MAX_TAG_LEN
}

impl Tags {
    pub fn new(tags: Vec<String>) -> (r: Self)
        ensures
            r.tags == tags,
    {
        Self { tags }
    }

    /// The tags `words`, unless one of them has more than twenty
    /// characters.
    pub fn from_words(words: Vec<String>) -> (r: Result<Tags, Error>)
        ensures
            tags_fit(views_of(words@)) ==> r is Ok && r.unwrap()@ == views_of(words@) && r.unwrap().valid(),
            !tags_fit(views_of(words@)) ==> r is Err && invalid(r.unwrap_err(), tag_complaint()),
    {
        let mut i: usize = 0;
        while i < words.len()
            invariant
                i <= words@.len(),
                forall|k: int| 0 <= k < i ==> (#[trigger] views_of(words@)[k]).len() <= MAX_TAG_LEN,
            decreases words@.len() - i,
        {
            if words[i].as_str().unicode_len() > MAX_TAG_LEN {
                assert(views_of(words@)[i as int].len() > MAX_TAG_LEN);
                return Err(
                    Error::InvalidValue(
                        String::from_str("invalid tag found: length greater than 20"),
                    ),
                );
            }
            i += 1;
        }
        Ok(Self { tags: words })
    }

    /// The tags that a text names: its words, unless one of them has more
    /// than twenty characters.
    pub fn try_from(s: &str) -> (r: Result<Tags, Error>)
        ensures
            tags_fit(words(s@)) ==> r is Ok && r.unwrap()@ == words(s@) && r.unwrap().valid(),
            !tags_fit(words(s@)) ==> r is Err && invalid(r.unwrap_err(), tag_complaint()),
    {
        Tags::from_words(split_words(s))
    }

    /// The tags in one line, with a blank between them.
    pub fn to_string(&self) -> (r: String)
        ensures
            r@ == joined(self@, " "@),
    {
        join(&self.tags, " ")
    }

    /// No tags at all.
    pub fn empty() -> (r: Self)
        ensures
            r@ == Seq::<Seq<char>>::empty(),
            r.valid(),
    {
        let r = Self { tags: Vec::new() };
        assert(r@ =~= Seq::<Seq<char>>::empty());
        r
    }

    /// True when every tag has at most twenty characters.
    pub open spec fn valid(&self) -> bool {
        tags_fit(self@)
    }

    pub fn is_empty(&self) -> (r: bool)
        ensures
            r == (self@.len() == 0),
    {
        self.tags.is_empty()
    }

    /// True when one of `values` is among these tags.
    pub fn has_any(&self, values: &[String]) -> (r: bool)
        ensures
            r == share_a_value(self@, views_of(values@)),
    {
        let mut j: usize = 0;
        while j < values.len()
            invariant
                j <= values@.len(),
                forall|k: int| 0 <= k < j ==> !self@.contains(#[trigger] values@[k]@),
            decreases values@.len() - j,
        {
            let mut i: usize = 0;
            while i < self.tags.len()
                invariant
                    i <= self.tags@.len(),
                    j < values@.len(),
                    forall|k: int| 0 <= k < i ==> self@[k] != values@[j as int]@,
                decreases self.tags@.len() - i,
            {
                if self.tags[i] == values[j] {
                    assert(self@[i as int] == views_of(values@)[j as int]);
                    return true;
                }
                i += 1;
            }
            assert(!self@.contains(values@[j as int]@));
            j += 1;
        }
        assert(!share_a_value(self@, views_of(values@))) by {
            if share_a_value(self@, views_of(values@)) {
                let (i, k) = choose|i: int, k: int|
                    0 <= i < self@.len() && 0 <= k < values@.len() && self@[i] == views_of(
                        values@,
                    )[k];
                assert(self@[i] == values@[k]@);
                assert(self@.contains(values@[k]@));
            }
        }
        false
    }

    pub fn values(&self) -> (r: Vec<String>)
        ensures
            views_of(r@) == self@,
    {
        let mut out: Vec<String> = Vec::new();
        let mut i: usize = 0;
        while i < self.tags.len()
            invariant
                i <= self.tags@.len(),
                out@.len() == i,
                forall|k: int| 0 <= k < i ==> (#[trigger] out@[k])@ == self@[k],
            decreases self.tags@.len() - i,
        {
            out.push(self.tags[i].clone());
            i += 1;
        }
        assert(views_of(out@) =~= self@);
        out
    }

    /// A copy of these tags.
    pub fn duplicate(&self) -> (r: Self)
        ensures
            r@ == self@,
    {
        Self { tags: self.values() }
    }
}

} // verus!
