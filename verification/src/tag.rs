//! Tags: the ordered lists of strings that annotate an event.

use vstd::prelude::*;
use crate::error::NostrError;

verus! {

/// The character sequences of a sequence of strings.
pub open spec fn texts(items: Seq<String>) -> Seq<Seq<char>> {
    Seq::new(items.len(), |i: int| items[i]@)
}

/// What parsing makes of a sequence of elements: the sequence itself, unless
/// it is empty.
pub open spec fn parsed_tag(elements: Seq<Seq<char>>) -> Option<Seq<Seq<char>>> {
    if elements.len() == 0 {
        None
    } else {
        Some(elements)
    }
}

/// A tag: its name, then its values. It always has a name.
#[derive(Debug, Eq, PartialOrd, Ord, Hash)]
pub struct Tag {
    elements: Vec<String>,
}

impl View for Tag {
    type V = Seq<Seq<char>>;

    closed spec fn view(&self) -> Seq<Seq<char>> {
        texts(self.elements@)
    }
}

/// Whether two slices hold the same strings in the same order.
pub fn same_strings(a: &[String], b: &[String]) -> (same: bool)
    ensures
        same == (texts(a@) == texts(b@)),
{
    if a.len() != b.len() {
        assert(texts(a@).len() != texts(b@).len());
        return false;
    }
    let mut i: usize = 0;
    while i < a.len()
        invariant
            i <= a.len(),
            a.len() == b.len(),
            forall|j: int| 0 <= j < i ==> a@[j]@ == b@[j]@,
        decreases a.len() - i,
    {
        if a[i] != b[i] {
            assert(texts(a@)[i as int] != texts(b@)[i as int]);
            return false;
        }
        i += 1;
    }
    assert(texts(a@) =~= texts(b@));
    true
}

impl PartialEq for Tag {
    fn eq(&self, other: &Tag) -> (same: bool) {
        same_strings(self.elements.as_slice(), other.elements.as_slice())
    }
}

impl vstd::std_specs::cmp::PartialEqSpecImpl for Tag {
    open spec fn obeys_eq_spec() -> bool {
        true
    }

    open spec fn eq_spec(&self, other: &Tag) -> bool {
        self@ == other@
    }
}

impl Clone for Tag {
    fn clone(&self) -> (copy: Self)
        ensures
            copy@ == self@,
    {
        proof {
            use_type_invariant(self);
        }
        let elements: Vec<String> = self.elements.clone();
        assert(texts(elements@) =~= texts(self.elements@));
        Tag { elements }
    }
}

impl Tag {
    #[verifier::type_invariant]
    spec fn has_name(self) -> bool {
        self.elements@.len() > 0
    }

    /// Makes a tag of its elements. An empty sequence is refused.
    pub fn parse(elements: Vec<String>) -> (r: Result<Tag, NostrError>)
        ensures
            match r {
                Ok(tag) => parsed_tag(texts(elements@)) == Some(tag@),
                Err(e) => e == NostrError::Validation && parsed_tag(texts(elements@)) is None,
            },
    {
        if elements.len() == 0 {
            Err(NostrError::Validation)
        } else {
            Ok(Tag { elements })
        }
    }

    /// The elements, name first.
    pub fn as_slice(&self) -> (items: &[String])
        ensures
            texts(items@) == self@,
            items@.len() > 0,
    {
        proof {
            use_type_invariant(self);
        }
        self.elements.as_slice()
    }

    /// The elements, name first, as an owned vector.
    pub fn to_vec(self) -> (items: Vec<String>)
        ensures
            texts(items@) == self@,
            items@.len() > 0,
    {
        proof {
            use_type_invariant(&self);
        }
        self.elements
    }

    /// The tag's name: its first element.
    pub fn name(&self) -> (name: &String)
        ensures
            self@.len() > 0,
            name@ == self@[0],
    {
        proof {
            use_type_invariant(self);
        }
        &self.elements[0]
    }
}

} // verus!
