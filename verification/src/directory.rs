//! Values by name.
use vstd::prelude::*;

use crate::text::same_text;

verus! {

/// The position of the entry of that name at or after `i`.
pub open spec fn entry_from<A>(entries: Seq<(String, A)>, key: Seq<char>, i: int) -> Option<int>
    decreases entries.len() - i,
{
    if i < 0 || i >= entries.len() {
        None
    } else if entries[i].0@ == key {
        Some(i)
    } else {
        entry_from(entries, key, i + 1)
    }
}

/// An entry that is found has the name, and none before it has.
proof fn entry_from_bounds<A>(entries: Seq<(String, A)>, key: Seq<char>, i: int)
    requires
        0 <= i,
    ensures
        match entry_from(entries, key, i) {
            Some(k) => i <= k < entries.len() && entries[k].0@ == key && (forall|j: int|
                i <= j < k ==> (#[trigger] entries[j]).0@ != key),
            None => forall|j: int| i <= j < entries.len() ==> (#[trigger] entries[j]).0@ != key,
        },
    decreases entries.len() - i,
{
    if i < entries.len() && entries[i].0@ != key {
        entry_from_bounds(entries, key, i + 1);
    }
}

/// Values by name.
#[derive(Debug)]
pub struct Directory<A> {
    pub entries: Vec<(String, A)>,
}

impl<A> View for Directory<A> {
    type V = Map<Seq<char>, A>;

    open spec fn view(&self) -> Map<Seq<char>, A> {
        Map::new(
            |key: Seq<char>| entry_from(self.entries@, key, 0) is Some,
            |key: Seq<char>| self.entries@[entry_from(self.entries@, key, 0)->0].1,
        )
    }
}

impl<A> Directory<A> {
    /// No values.
    pub fn new() -> (r: Self)
        ensures
            r@ == Map::<Seq<char>, A>::empty(),
    {
        let r = Directory { entries: Vec::new() };
        assert(r@ =~= Map::<Seq<char>, A>::empty());
        r
    }

    /// Where the entry of a name is.
    fn position(&self, key: &str) -> (r: Option<usize>)
        ensures
            match r {
                Some(i) => entry_from(self.entries@, key@, 0) == Some(i as int) && i
                    < self.entries@.len(),
                None => entry_from(self.entries@, key@, 0) is None,
            },
    {
        let mut i: usize = 0;
        while i < self.entries.len()
            invariant
                i <= self.entries@.len(),
                entry_from(self.entries@, key@, 0) == entry_from(self.entries@, key@, i as int),
            decreases self.entries@.len() - i,
        {
            if same_text(self.entries[i].0.as_str(), key) {
                return Some(i);
            }
            i += 1;
        }
        None
    }

    /// The value of a name.
    pub fn get(&self, key: &str) -> (r: Option<&A>)
        ensures
            match r {
                Some(a) => self@.contains_key(key@) && *a == self@[key@],
                None => !self@.contains_key(key@),
            },
    {
        match self.position(key) {
            Some(i) => Some(&self.entries[i].1),
            None => None,
        }
    }

    /// Gives a name a value, in place of the one that it had.
    pub fn put(&mut self, key: &str, value: A)
        ensures
            final(self)@ == old(self)@.insert(key@, value),
    {
        let ghost before = self.entries@;
        match self.position(key) {
            Some(i) => {
                self.entries[i] = (String::from_str(key), value);
            },
            None => {
                self.entries.push((String::from_str(key), value));
            },
        }
        proof {
            let after = self.entries@;
            assert forall|u: Seq<char>| #[trigger]
                self@.contains_key(u) == old(self)@.insert(key@, value).contains_key(u) && (
                self@.contains_key(u) ==> self@[u] == old(self)@.insert(key@, value)[u]) by {
                entry_from_bounds(before, u, 0);
                entry_from_bounds(after, u, 0);
                entry_from_bounds(before, key@, 0);
                match entry_from(before, u, 0) {
                    Some(k) => {
                        assert(after[k].0@ == u);
                    },
                    None => {},
                }
                match entry_from(after, u, 0) {
                    Some(k) => {
                        assert(k < before.len() ==> before[k].0@ == u);
                    },
                    None => {},
                }
                if u == key@ {
                    match entry_from(before, key@, 0) {
                        Some(k) => {
                            assert(after[k].0@ == u);
                        },
                        None => {
                            assert(after[before.len() as int].0@ == u);
                        },
                    }
                }
            }
            assert(self@ =~= old(self)@.insert(key@, value));
        }
    }
}

} // verus!
