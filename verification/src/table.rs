//! A key-value table keyed by 32-byte identifiers.
//!
//! Reading an absent key yields `None`, never an error; `contains` answers
//! the membership question alone.

use vstd::prelude::*;
use crate::ids::bytes_equal;

verus! {

/// One key with its value.
pub struct Slot<T> {
    pub key: [u8; 32],
    pub value: T,
}

/// A table from 32-byte keys to values of type `T`, each key held once.
pub struct Table<T> {
    slots: Vec<Slot<T>>,
}

impl<T> View for Table<T> {
    type V = Map<Seq<u8>, T>;

    closed spec fn view(&self) -> Map<Seq<u8>, T> {
        Map::new(
            |k: Seq<u8>| exists|i: int| self.holds(k, i),
            |k: Seq<u8>| self.slots@[choose|i: int| self.holds(k, i)].value,
        )
    }
}

impl<T> Table<T> {
    /// Slot `i` exists and holds `key`.
    pub closed spec fn holds(&self, key: Seq<u8>, i: int) -> bool {
        0 <= i < self.slots@.len() && self.slots@[i].key@ == key
    }

    /// No key stands in two slots.
    pub closed spec fn wf(&self) -> bool {
        forall|i: int, j: int|
            0 <= i < j < self.slots@.len() ==> self.slots@[i].key@ != self.slots@[j].key@
    }

    proof fn lemma_slot(&self, key: Seq<u8>, i: int)
        requires
            self.wf(),
            self.holds(key, i),
        ensures
            self@.contains_key(key),
            self@[key] == self.slots@[i].value,
    {
        let j = choose|j: int| self.holds(key, j);
        assert(self.holds(key, j));
        if i < j {
            assert(self.slots@[i].key@ != self.slots@[j].key@);
        } else if j < i {
            assert(self.slots@[j].key@ != self.slots@[i].key@);
        }
    }

    /// The empty table.
    pub fn new() -> (table: Table<T>)
        ensures
            table.wf(),
            table@ == Map::<Seq<u8>, T>::empty(),
    {
        let table = Table { slots: Vec::new() };
        assert(table@ =~= Map::<Seq<u8>, T>::empty());
        table
    }

    fn position(&self, key: &[u8; 32]) -> (found: Option<usize>)
        ensures
            match found {
                Some(i) => self.holds(key@, i as int),
                None => forall|i: int| !self.holds(key@, i),
            },
    {
        let mut i: usize = 0;
        while i < self.slots.len()
            invariant
                i <= self.slots@.len(),
                forall|k: int| 0 <= k < i ==> !self.holds(key@, k),
            decreases self.slots@.len() - i,
        {
            if bytes_equal(&self.slots[i].key, key) {
                return Some(i);
            }
            i += 1;
        }
        None
    }

    /// Whether `key` has a value.
    pub fn contains(&self, key: &[u8; 32]) -> (present: bool)
        requires
            self.wf(),
        ensures
            present == self@.contains_key(key@),
    {
        match self.position(key) {
            Some(i) => {
                proof {
                    self.lemma_slot(key@, i as int);
                }
                true
            },
            None => false,
        }
    }

    /// The value of `key`, or `None` where it has none.
    pub fn get(&self, key: &[u8; 32]) -> (value: Option<&T>)
        requires
            self.wf(),
        ensures
            value.is_some() == self@.contains_key(key@),
            value matches Some(v) ==> *v == self@[key@],
    {
        match self.position(key) {
            Some(i) => {
                proof {
                    self.lemma_slot(key@, i as int);
                }
                Some(&self.slots[i].value)
            },
            None => None,
        }
    }

    /// Gives `key` the value `value`, in place of the one it had, if any.
    pub fn insert(&mut self, key: [u8; 32], value: T)
        requires
            old(self).wf(),
        ensures
            final(self).wf(),
            final(self)@ == old(self)@.insert(key@, value),
    {
        let ghost before = *self;
        match self.position(&key) {
            Some(i) => {
                self.slots.set(i, Slot { key, value });
                proof {
                    assert forall|k: Seq<u8>, j: int| self.holds(k, j) == before.holds(k, j) by {}
                    assert(self.wf());
                    self.lemma_slot(key@, i as int);
                    assert forall|k: Seq<u8>| #[trigger]
                        before@.insert(key@, value).contains_key(k) implies self@.contains_key(k)
                        && self@[k] == before@.insert(key@, value)[k] by {
                        if k != key@ {
                            let j = choose|j: int| before.holds(k, j);
                            assert(before.holds(k, j));
                            before.lemma_slot(k, j);
                            self.lemma_slot(k, j);
                        }
                    }
                    assert forall|k: Seq<u8>| #[trigger]
                        self@.contains_key(k) implies before@.insert(key@, value).contains_key(
                        k,
                    ) by {
                        let j = choose|j: int| self.holds(k, j);
                        assert(before.holds(k, j));
                    }
                }
            },
            None => {
                self.slots.push(Slot { key, value });
                proof {
                    let n = before.slots@.len() as int;
                    assert forall|k: Seq<u8>, j: int| j != n implies self.holds(k, j)
                        == before.holds(k, j) by {}
                    assert(self.holds(key@, n));
                    assert forall|i: int, j: int| 0 <= i < j < self.slots@.len() implies self.slots@[i].key@
                        != self.slots@[j].key@ by {
                        if j == n {
                            assert(!before.holds(key@, i));
                        }
                    }
                    self.lemma_slot(key@, n);
                    assert forall|k: Seq<u8>| #[trigger]
                        before@.insert(key@, value).contains_key(k) implies self@.contains_key(k)
                        && self@[k] == before@.insert(key@, value)[k] by {
                        if k != key@ {
                            let j = choose|j: int| before.holds(k, j);
                            assert(before.holds(k, j));
                            before.lemma_slot(k, j);
                            assert(self.holds(k, j));
                            self.lemma_slot(k, j);
                        }
                    }
                    assert forall|k: Seq<u8>| #[trigger]
                        self@.contains_key(k) implies before@.insert(key@, value).contains_key(
                        k,
                    ) by {
                        let j = choose|j: int| self.holds(k, j);
                        if j != n {
                            assert(before.holds(k, j));
                        }
                    }
                }
            },
        }
        assert(self@ =~= before@.insert(key@, value));
    }
}

} // verus!
