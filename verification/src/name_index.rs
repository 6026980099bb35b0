//! An index from names to positions, kept in the order of insertion.
use crate::search::{
    first_where, lemma_first_where_absent, lemma_first_where_found, lemma_first_where_is_first,
    lemma_first_where_push,
};
use crate::text::str_eq;
use vstd::prelude::*;

verus! {

/// A finite map from names to positions. A name is entered once: entering it
/// again is refused.
#[derive(Debug)]
pub struct NameIndex {
    entries: Vec<(String, usize)>,
}

/// The map that a list of names with their positions stands for: a name maps
/// to the position beside its first occurrence.
pub open spec fn index_map(entries: Seq<(String, usize)>) -> Map<Seq<char>, usize> {
    Map::new(
        |k: Seq<char>| first_where(entries, |e: (String, usize)| e.0@ == k) is Some,
        |k: Seq<char>| entries[first_where(entries, |e: (String, usize)| e.0@ == k).unwrap()].1,
    )
}

impl View for NameIndex {
    type V = Map<Seq<char>, usize>;

    closed spec fn view(&self) -> Map<Seq<char>, usize> {
        index_map(self.entries@)
    }
}

impl NameIndex {
    /// An index without names.
    pub fn new() -> (r: Self)
        ensures
            r@ == Map::<Seq<char>, usize>::empty(),
    {
        let r = NameIndex { entries: Vec::new() };
        assert(r@ =~= Map::<Seq<char>, usize>::empty());
        r
    }

    /// The position entered for `name`.
    pub fn get(&self, name: &str) -> (r: Option<usize>)
        ensures
            r == if self@.contains_key(name@) {
                Some(self@[name@])
            } else {
                None
            },
    {
        let ghost p = |e: (String, usize)| e.0@ == name@;
        let mut i: usize = 0;
        while i < self.entries.len()
            invariant
                i <= self.entries.len(),
                p == (|e: (String, usize)| e.0@ == name@),
                forall|j: int| 0 <= j < i ==> !p(#[trigger] self.entries@[j]),
            decreases self.entries.len() - i,
        {
            if str_eq(self.entries[i].0.as_str(), name) {
                proof {
                    assert(p(self.entries@[i as int]));
                    lemma_first_where_found(self.entries@, p, i as int);
                }
                return Some(self.entries[i].1);
            }
            assert(!p(self.entries@[i as int]));
            i += 1;
        }
        proof {
            lemma_first_where_absent(self.entries@, p);
        }
        None
    }

    /// Enters `position` for `name`, unless the name is entered already.
    /// Returns whether the name was entered by this call.
    pub fn insert(&mut self, name: String, position: usize) -> (r: bool)
        ensures
            r == !old(self)@.contains_key(name@),
            final(self)@ == if r {
                old(self)@.insert(name@, position)
            } else {
                old(self)@
            },
    {
        if self.get(name.as_str()).is_some() {
            return false;
        }
        let ghost entries = self.entries@;
        let ghost entry = (name, position);
        self.entries.push((name, position));
        proof {
            let grown = entries.push(entry);
            assert forall|k: Seq<char>|
                index_map(grown).contains_key(k) == index_map(entries).insert(
                    name@,
                    position,
                ).contains_key(k) by {
                lemma_first_where_push(entries, |e: (String, usize)| e.0@ == k, entry);
            }
            assert forall|k: Seq<char>| #[trigger]
                index_map(grown).contains_key(k) implies index_map(grown)[k] == index_map(
                entries,
            ).insert(name@, position)[k] by {
                lemma_first_where_push(entries, |e: (String, usize)| e.0@ == k, entry);
                lemma_first_where_is_first(entries, |e: (String, usize)| e.0@ == k);
            }
            assert(index_map(grown) =~= index_map(entries).insert(name@, position));
        }
        true
    }
}

} // verus!
