//! Tables keyed by text, which keep the order in which names first came.

use crate::text::same_text;
use vstd::prelude::*;

verus! {

/// A table from names to values. A name occurs at most once; the entries stand
/// in the order in which their names were first inserted.
#[derive(Debug)]
pub struct Table<V> {
    entries: Vec<(String, V)>,
}

impl<V> View for Table<V> {
    type V = Map<Seq<char>, V>;

    closed spec fn view(&self) -> Map<Seq<char>, V> {
        Map::new(
            |name: Seq<char>| self.names().contains(name),
            |name: Seq<char>| self.entries@[self.names().index_of(name)].1,
        )
    }
}

/// The names of entries, in order.
spec fn names_of<V>(entries: Seq<(String, V)>) -> Seq<Seq<char>> {
    Seq::new(entries.len(), |i: int| entries[i].0@)
}

impl<V> Table<V> {
    /// The names, in order.
    pub closed spec fn names(&self) -> Seq<Seq<char>> {
        names_of(self.entries@)
    }

    #[verifier::type_invariant]
    spec fn names_are_distinct(&self) -> bool {
        self.names().no_duplicates()
    }

    /// The entry at a position is the entry of its name.
    proof fn lemma_entry(&self, i: int)
        requires
            self.names().no_duplicates(),
            0 <= i < self.entries@.len(),
        ensures
            self@.contains_key(self.entries@[i].0@),
            self@[self.entries@[i].0@] == self.entries@[i].1,
    {
        assert(self.names()[i] == self.entries@[i].0@);
        assert(self.names().contains(self.entries@[i].0@));
        let at = self.names().index_of(self.entries@[i].0@);
        assert(self.names()[at] == self.entries@[i].0@);
    }

    /// A name that stands in no entry is not in the table.
    proof fn lemma_absent(&self, name: Seq<char>)
        requires
            forall|i: int| 0 <= i < self.entries@.len() ==> self.entries@[i].0@ != name,
        ensures
            !self@.contains_key(name),
            !self.names().contains(name),
    {
    }

    /// An empty table.
    pub fn new() -> (r: Self)
        ensures
            r@ == Map::<Seq<char>, V>::empty(),
            r.names() == Seq::<Seq<char>>::empty(),
    {
        let r = Table { entries: Vec::new() };
        assert(r@ =~= Map::<Seq<char>, V>::empty());
        r
    }

    /// How many names the table holds. The names are those that the table maps,
    /// each once.
    pub fn len(&self) -> (r: usize)
        ensures
            r == self.names().len(),
            self.names().no_duplicates(),
            forall|name: Seq<char>| #[trigger]
                self@.contains_key(name) <==> self.names().contains(name),
    {
        proof {
            use_type_invariant(self);
        }
        self.entries.len()
    }

    /// The position of a name.
    fn position(&self, name: &str) -> (r: Option<usize>)
        ensures
            match r {
                Some(i) => i < self.entries@.len() && self.entries@[i as int].0@ == name@,
                None => forall|i: int| 0 <= i < self.entries@.len() ==> self.entries@[i].0@ != name@,
            },
    {
        let mut i: usize = 0;
        while i < self.entries.len()
            invariant
                i <= self.entries@.len(),
                forall|k: int| 0 <= k < i ==> self.entries@[k].0@ != name@,
            decreases self.entries@.len() - i,
        {
            if same_text(self.entries[i].0.as_str(), name) {
                return Some(i);
            }
            i = i + 1;
        }
        None
    }

    /// The value under a name.
    pub fn get(&self, name: &str) -> (r: Option<&V>)
        ensures
            match r {
                Some(v) => self@.contains_key(name@) && *v == self@[name@],
                None => !self@.contains_key(name@),
            },
    {
        proof {
            use_type_invariant(self);
        }
        match self.position(name) {
            Some(i) => {
                proof {
                    self.lemma_entry(i as int);
                }
                Some(&self.entries[i].1)
            },
            None => {
                proof {
                    self.lemma_absent(name@);
                }
                None
            },
        }
    }

    /// Whether a name is in the table.
    pub fn contains_key(&self, name: &str) -> (r: bool)
        ensures
            r == self@.contains_key(name@),
    {
        self.get(name).is_some()
    }

    /// The name at a position.
    pub fn name_at(&self, i: usize) -> (r: &str)
        requires
            i < self.names().len(),
        ensures
            r@ == self.names()[i as int],
    {
        self.entries[i].0.as_str()
    }

    /// The value at a position.
    pub fn value_at(&self, i: usize) -> (r: &V)
        requires
            i < self.names().len(),
        ensures
            self@.contains_key(self.names()[i as int]),
            *r == self@[self.names()[i as int]],
    {
        proof {
            use_type_invariant(self);
            self.lemma_entry(i as int);
        }
        &self.entries[i].1
    }

    /// Puts a value under a name, in place of the one that stood there.
    pub fn insert(&mut self, name: &str, value: V)
        ensures
            final(self)@ == old(self)@.insert(name@, value),
            final(self).names() == if old(self).names().contains(name@) {
                old(self).names()
            } else {
                old(self).names().push(name@)
            },
    {
        proof {
            use_type_invariant(&*self);
        }
        let found = self.position(name);
        let mut entries: Vec<(String, V)> = Vec::new();
        std::mem::swap(&mut entries, &mut self.entries);
        let ghost before = *old(self);
        match found {
            Some(i) => {
                entries.set(i, (name.to_string(), value));
                proof {
                    before.lemma_entry(i as int);
                    assert(before.names()[i as int] == name@);
                    assert(names_of(entries@) =~= before.names());
                }
            },
            None => {
                entries.push((name.to_string(), value));
                proof {
                    before.lemma_absent(name@);
                    assert(names_of(entries@) =~= before.names().push(name@));
                }
            },
        }
        self.entries = entries;
        proof {
            let after = *self;
            assert forall|key: Seq<char>| #[trigger] after@.contains_key(key) implies after@[key]
                == before@.insert(name@, value)[key] by {
                let at = after.names().index_of(key);
                assert(after.names()[at] == key);
                assert(after.entries@[at].0@ == key);
                if at < before.entries@.len() && key != name@ {
                    assert(before.entries@[at] == after.entries@[at]);
                    before.lemma_entry(at);
                }
            }
            assert forall|key: Seq<char>| #[trigger] after@.contains_key(key)
                == before@.insert(name@, value).contains_key(key) by {
                if key == name@ {
                    match found {
                        Some(i) => assert(after.names()[i as int] == name@),
                        None => assert(after.names()[before.entries@.len() as int] == name@),
                    }
                }
                if before.names().contains(key) {
                    let at = before.names().index_of(key);
                    assert(after.names()[at] == key);
                }
            }
            assert(after@ =~= before@.insert(name@, value));
        }
    }
}

impl<V: Clone> Clone for Table<V> {
    /// The clone has the same names, each with a clone of its value.
    fn clone(&self) -> (r: Self)
        ensures
            r.names() == self.names(),
            forall|name: Seq<char>| #[trigger] r@.contains_key(name) == self@.contains_key(name),
            forall|name: Seq<char>| #[trigger] r@.contains_key(name) ==> cloned::<V>(self@[name], r@[name]),
    {
        proof {
            use_type_invariant(self);
        }
        let mut entries: Vec<(String, V)> = Vec::new();
        let mut i: usize = 0;
        while i < self.entries.len()
            invariant
                i <= self.entries@.len(),
                entries@.len() == i,
                forall|k: int| 0 <= k < i ==> (#[trigger] entries@[k]).0@ == self.entries@[k].0@,
                forall|k: int| 0 <= k < i ==> cloned::<V>(self.entries@[k].1, (#[trigger] entries@[k]).1),
            decreases self.entries@.len() - i,
        {
            entries.push((self.entries[i].0.clone(), self.entries[i].1.clone()));
            i = i + 1;
        }
        assert(names_of(entries@) =~= self.names());
        let r = Table { entries };
        assert forall|name: Seq<char>| #[trigger] r@.contains_key(name) implies cloned::<V>(
            self@[name],
            r@[name],
        ) by {
            let at = r.names().index_of(name);
            assert(r.names()[at] == name);
        }
        r
    }
}

} // verus!
