//! A table from canonical kind tuples to lists of potentials, each list in
//! the order in which its potentials were added.

use vstd::prelude::*;

verus! {

/// A tuple of up to four kinds, by their numbers; unused places hold zero.
pub type Key = (u32, u32, u32, u32);

/// Where `key` stands among `keys`, if it is there.
pub open spec fn key_position(keys: Seq<Key>, key: Key) -> Option<int> {
    if exists|i: int| 0 <= i < keys.len() && keys[i] == key {
        Some(choose|i: int| 0 <= i < keys.len() && keys[i] == key)
    } else {
        None
    }
}

/// The lists of potentials registered for keys.
pub struct KindTable<P> {
    keys: Vec<Key>,
    lists: Vec<Vec<P>>,
    nothing: Vec<P>,
}

impl<P> KindTable<P> {
    /// The keys that have a list, in the order of their first registration.
    pub closed spec fn keys(&self) -> Seq<Key> {
        self.keys@
    }

    /// The list of each key, in the order of `keys`.
    pub closed spec fn lists(&self) -> Seq<Seq<P>> {
        Seq::new(self.lists@.len(), |i: int| self.lists@[i]@)
    }

    /// Each key stands once and has a list, which is not empty.
    pub closed spec fn well_formed(&self) -> bool {
        &&& self.keys@.len() == self.lists@.len()
        &&& self.nothing@.len() == 0
        &&& forall|i: int, j: int| 0 <= i < j < self.keys@.len() ==> self.keys@[i] != self.keys@[j]
        &&& forall|i: int| 0 <= i < self.lists@.len() ==> (#[trigger] self.lists@[i])@.len() > 0
    }

    /// The potentials registered for `key`: none if the key was never used.
    pub open spec fn lookup(&self, key: Key) -> Seq<P> {
        match key_position(self.keys(), key) {
            Some(i) => self.lists()[i],
            None => Seq::empty(),
        }
    }

    /// What `well_formed` means in terms of keys and lists.
    pub proof fn lemma_well_formed(&self)
        requires
            self.well_formed(),
        ensures
            self.keys().len() == self.lists().len(),
            forall|i: int, j: int| 0 <= i < j < self.keys().len() ==> self.keys()[i] != self.keys()[j],
            forall|i: int| 0 <= i < self.lists().len() ==> (#[trigger] self.lists()[i]).len() > 0,
            forall|i: int|
                0 <= i < self.keys().len() ==> self.lookup(#[trigger] self.keys()[i])
                    == self.lists()[i],
            forall|key: Key|
                !self.keys().contains(key) ==> (#[trigger] self.lookup(key)).len() == 0,
    {
        assert forall|i: int| 0 <= i < self.keys().len() implies self.lookup(
            #[trigger] self.keys()[i],
        ) == self.lists()[i] by {
            self.lemma_position(self.keys()[i], i);
        }
        assert forall|key: Key| !self.keys().contains(key) implies (#[trigger] self.lookup(
            key,
        )).len() == 0 by {
            if key_position(self.keys(), key) is Some {
                let c = key_position(self.keys(), key)->0;
                assert(self.keys()[c] == key);
            }
        }
    }

    /// A key that stands at `i` is found there.
    proof fn lemma_position(&self, key: Key, i: int)
        requires
            self.well_formed(),
            0 <= i < self.keys@.len(),
            self.keys@[i] == key,
        ensures
            key_position(self.keys(), key) == Some(i),
    {
        let c = choose|c: int| 0 <= c < self.keys@.len() && self.keys@[c] == key;
        assert(c == i);
    }

    /// A table without keys.
    pub fn new() -> (table: KindTable<P>)
        ensures
            table.well_formed(),
            table.keys().len() == 0,
            forall|key: Key| (#[trigger] table.lookup(key)).len() == 0,
    {
        KindTable { keys: Vec::new(), lists: Vec::new(), nothing: Vec::new() }
    }

    /// The index at which `key` stands, if it has a list.
    fn position(&self, key: Key) -> (found: Option<usize>)
        requires
            self.well_formed(),
        ensures
            match found {
                Some(i) => key_position(self.keys(), key) == Some(i as int) && i < self.keys@.len(),
                None => key_position(self.keys(), key) is None,
            },
    {
        let mut i: usize = 0;
        while i < self.keys.len()
            invariant
                self.well_formed(),
                i <= self.keys.len(),
                forall|k: int| 0 <= k < i ==> self.keys@[k] != key,
            decreases self.keys.len() - i,
        {
            let here = self.keys[i];
            if here.0 == key.0 && here.1 == key.1 && here.2 == key.2 && here.3 == key.3 {
                proof {
                    self.lemma_position(key, i as int);
                }
                return Some(i);
            }
            i += 1;
        }
        None
    }

    /// The potentials registered for `key`, in the order of registration;
    /// an empty list if there are none.
    pub fn get(&self, key: Key) -> (list: &Vec<P>)
        requires
            self.well_formed(),
        ensures
            list@ == self.lookup(key),
    {
        match self.position(key) {
            Some(i) => &self.lists[i],
            None => &self.nothing,
        }
    }

    /// Add `potential` at the end of the list of `key`; the lists of all
    /// other keys stay as they are.
    pub fn add(&mut self, key: Key, potential: P)
        requires
            old(self).well_formed(),
        ensures
            final(self).well_formed(),
            final(self).lookup(key) == old(self).lookup(key).push(potential),
            forall|other: Key| other != key ==> final(self).lookup(other) == old(self).lookup(other),
            old(self).keys().contains(key) ==> final(self).keys() == old(self).keys() && final(self).lists() == old(self).lists().update(
                key_position(old(self).keys(), key)->0,
                old(self).lookup(key).push(potential),
            ),
            !old(self).keys().contains(key) ==> final(self).keys() == old(self).keys().push(key)
                && final(self).lists() == old(self).lists().push(seq![potential]),
    {
        match self.position(key) {
            Some(i) => {
                let mut list = Vec::new();
                std::mem::swap(&mut list, &mut self.lists[i]);
                list.push(potential);
                self.lists[i] = list;
                proof {
                    assert(self.keys@ == old(self).keys@);
                    assert(self.well_formed());
                    self.lemma_position(key, i as int);
                    old(self).lemma_position(key, i as int);
                    assert(old(self).keys().contains(key));
                    assert(self.lists() =~= old(self).lists().update(
                        i as int,
                        old(self).lookup(key).push(potential),
                    ));
                    assert forall|other: Key| other != key implies self.lookup(other) == old(self).lookup(other) by {
                        if key_position(self.keys(), other) is Some {
                            let c = key_position(self.keys(), other)->0;
                            assert(self.keys@[c] == other);
                            assert(c != i);
                        }
                    }
                }
            },
            None => {
                let mut list = Vec::new();
                list.push(potential);
                self.keys.push(key);
                self.lists.push(list);
                proof {
                    let n = old(self).keys@.len() as int;
                    assert forall|a: int, b: int| 0 <= a < b < self.keys@.len() implies self.keys@[a]
                        != self.keys@[b] by {
                        if b == n {
                            assert(old(self).keys@[a] != key);
                        }
                    }
                    assert(self.well_formed());
                    self.lemma_position(key, n);
                    assert(self.lookup(key) =~= old(self).lookup(key).push(potential));
                    assert(self.lists()[n] =~= seq![potential]);
                    assert(self.lists() =~= old(self).lists().push(seq![potential]));
                    assert forall|other: Key| other != key implies self.lookup(other) == old(self).lookup(other) by {
                        if key_position(self.keys(), other) is Some {
                            let c = key_position(self.keys(), other)->0;
                            assert(self.keys@[c] == other);
                            assert(c < n);
                            old(self).lemma_position(other, c);
                        } else if key_position(old(self).keys(), other) is Some {
                            let c = key_position(old(self).keys(), other)->0;
                            assert(old(self).keys@[c] == other);
                            assert(self.keys@[c] == other);
                        }
                    }
                    if old(self).keys().contains(key) {
                        let c = choose|c: int| 0 <= c < old(self).keys().len() && old(self).keys()[c] == key;
                        assert(old(self).keys@[c] == key);
                    }
                }
            },
        }
    }

    /// The number of keys that have a list.
    pub fn len(&self) -> (count: usize)
        requires
            self.well_formed(),
        ensures
            count == self.keys().len(),
    {
        self.keys.len()
    }

    /// The list that was registered as number `i`.
    pub fn list(&self, i: usize) -> (list: &Vec<P>)
        requires
            self.well_formed(),
            i < self.keys().len(),
        ensures
            list@ == self.lists()[i as int],
    {
        &self.lists[i]
    }
}

} // verus!
