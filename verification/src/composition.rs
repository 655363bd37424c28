//! The composition of a system: how many particles of each kind and how
//! many molecules of each make it holds.

use vstd::prelude::*;
use crate::kinds::ParticleKind;
use crate::molecule::MoleculeHash;

verus! {

/// How often `item` occurs among the first `count` of `items`.
pub open spec fn count_in<T>(items: Seq<T>, count: nat, item: T) -> nat
    decreases count,
{
    if count == 0 {
        0
    } else {
        count_in(items, (count - 1) as nat, item) + if items[count - 1] == item {
            1nat
        } else {
            0nat
        }
    }
}

/// Nothing occurs more often among `count` items than `count` times.
pub proof fn lemma_count_in_bound<T>(items: Seq<T>, count: nat, item: T)
    ensures
        count_in(items, count, item) <= count,
    decreases count,
{
    if count > 0 {
        lemma_count_in_bound(items, (count - 1) as nat, item);
    }
}

/// Counters, one for each key that was counted at least once.
pub struct Tally {
    keys: Vec<u64>,
    counts: Vec<usize>,
}

impl Tally {
    /// Each key stands once, with its counter.
    pub closed spec fn well_formed(&self) -> bool {
        &&& self.keys@.len() == self.counts@.len()
        &&& forall|i: int, j: int| 0 <= i < j < self.keys@.len() ==> self.keys@[i] != self.keys@[j]
    }

    /// How often `key` was counted.
    pub closed spec fn count_spec(&self, key: u64) -> nat {
        if exists|i: int| 0 <= i < self.keys@.len() && self.keys@[i] == key {
            self.counts@[choose|i: int| 0 <= i < self.keys@.len() && self.keys@[i] == key] as nat
        } else {
            0
        }
    }

    /// A key that stands at `i` has the counter that stands there.
    proof fn lemma_counter(&self, key: u64, i: int)
        requires
            self.well_formed(),
            0 <= i < self.keys@.len(),
            self.keys@[i] == key,
        ensures
            self.count_spec(key) == self.counts@[i],
    {
        let c = choose|c: int| 0 <= c < self.keys@.len() && self.keys@[c] == key;
        assert(c == i);
    }

    /// A tally in which nothing was counted.
    pub fn new() -> (tally: Tally)
        ensures
            tally.well_formed(),
            forall|key: u64| tally.count_spec(key) == 0,
    {
        Tally { keys: Vec::new(), counts: Vec::new() }
    }

    /// The index of the counter of `key`, if it has one.
    fn position(&self, key: u64) -> (found: Option<usize>)
        requires
            self.well_formed(),
        ensures
            match found {
                Some(i) => i < self.keys@.len() && self.keys@[i as int] == key,
                None => forall|k: int| 0 <= k < self.keys@.len() ==> self.keys@[k] != key,
            },
    {
        let mut i: usize = 0;
        while i < self.keys.len()
            invariant
                i <= self.keys.len(),
                forall|k: int| 0 <= k < i ==> self.keys@[k] != key,
            decreases self.keys.len() - i,
        {
            if self.keys[i] == key {
                return Some(i);
            }
            i += 1;
        }
        None
    }

    /// How often `key` was counted.
    pub fn count(&self, key: u64) -> (count: usize)
        requires
            self.well_formed(),
        ensures
            count == self.count_spec(key),
    {
        match self.position(key) {
            Some(i) => {
                proof {
                    self.lemma_counter(key, i as int);
                }
                self.counts[i]
            },
            None => 0,
        }
    }

    /// Count `key` once more.
    pub fn add(&mut self, key: u64)
        requires
            old(self).well_formed(),
            old(self).count_spec(key) < usize::MAX,
        ensures
            final(self).well_formed(),
            final(self).count_spec(key) == old(self).count_spec(key) + 1,
            forall|other: u64| other != key ==> final(self).count_spec(other) == old(self).count_spec(other),
    {
        match self.position(key) {
            Some(i) => {
                proof {
                    self.lemma_counter(key, i as int);
                }
                let count = self.counts[i];
                self.counts[i] = count + 1;
                proof {
                    self.lemma_counter(key, i as int);
                    assert forall|other: u64| other != key implies self.count_spec(other) == old(self).count_spec(other) by {
                        if exists|c: int| 0 <= c < self.keys@.len() && self.keys@[c] == other {
                            let c = choose|c: int| 0 <= c < self.keys@.len() && self.keys@[c] == other;
                            self.lemma_counter(other, c);
                            old(self).lemma_counter(other, c);
                        }
                    }
                }
            },
            None => {
                self.keys.push(key);
                self.counts.push(1);
                proof {
                    let n = old(self).keys@.len() as int;
                    assert(self.keys@[n] == key);
                    self.lemma_counter(key, n);
                    assert forall|other: u64| other != key implies self.count_spec(other) == old(self).count_spec(other) by {
                        if exists|c: int| 0 <= c < self.keys@.len() && self.keys@[c] == other {
                            let c = choose|c: int| 0 <= c < self.keys@.len() && self.keys@[c] == other;
                            assert(c < n);
                            assert(old(self).keys@[c] == other);
                            self.lemma_counter(other, c);
                            old(self).lemma_counter(other, c);
                        } else if exists|c: int| 0 <= c < old(self).keys@.len() && old(self).keys@[c] == other {
                            let c = choose|c: int|
                                0 <= c < old(self).keys@.len() && old(self).keys@[c] == other;
                            assert(self.keys@[c] == other);
                        }
                    }
                }
            },
        }
    }
}

/// The number of particles of each kind and of molecules of each hash.
pub struct Composition {
    particles: Tally,
    molecules: Tally,
}

impl Composition {
    /// Both tallies are well formed.
    pub closed spec fn well_formed(&self) -> bool {
        self.particles.well_formed() && self.molecules.well_formed()
    }

    /// The number of particles of `kind`.
    pub closed spec fn particles_spec(&self, kind: ParticleKind) -> nat {
        self.particles.count_spec(kind.0 as u64)
    }

    /// The number of molecules with the hash `hash`.
    pub closed spec fn molecules_spec(&self, hash: MoleculeHash) -> nat {
        self.molecules.count_spec(hash.0)
    }

    /// The composition of an empty system.
    pub fn new() -> (composition: Composition)
        ensures
            composition.well_formed(),
            forall|kind: ParticleKind| composition.particles_spec(kind) == 0,
            forall|hash: MoleculeHash| composition.molecules_spec(hash) == 0,
    {
        Composition { particles: Tally::new(), molecules: Tally::new() }
    }

    /// Count one more particle of `kind`.
    pub fn add_particle(&mut self, kind: ParticleKind)
        requires
            old(self).well_formed(),
            old(self).particles_spec(kind) < usize::MAX,
        ensures
            final(self).well_formed(),
            final(self).particles_spec(kind) == old(self).particles_spec(kind) + 1,
            forall|other: ParticleKind|
                other != kind ==> final(self).particles_spec(other) == old(self).particles_spec(other),
            forall|hash: MoleculeHash| final(self).molecules_spec(hash) == old(self).molecules_spec(hash),
    {
        self.particles.add(kind.0 as u64);
        assert forall|other: ParticleKind| other != kind implies self.particles_spec(other) == old(self).particles_spec(other) by {
            assert(other.0 as u64 != kind.0 as u64);
        }
    }

    /// Count one more molecule with the hash `hash`.
    pub fn add_molecule(&mut self, hash: MoleculeHash)
        requires
            old(self).well_formed(),
            old(self).molecules_spec(hash) < usize::MAX,
        ensures
            final(self).well_formed(),
            final(self).molecules_spec(hash) == old(self).molecules_spec(hash) + 1,
            forall|other: MoleculeHash|
                other != hash ==> final(self).molecules_spec(other) == old(self).molecules_spec(other),
            forall|kind: ParticleKind| final(self).particles_spec(kind) == old(self).particles_spec(kind),
    {
        self.molecules.add(hash.0);
        assert forall|other: MoleculeHash| other != hash implies self.molecules_spec(other) == old(self).molecules_spec(other) by {
            assert(other.0 != hash.0);
        }
    }

    /// The number of particles of `kind`.
    pub fn particles(&self, kind: ParticleKind) -> (count: usize)
        requires
            self.well_formed(),
        ensures
            count == self.particles_spec(kind),
    {
        self.particles.count(kind.0 as u64)
    }

    /// The number of molecules with the hash `hash`.
    pub fn molecules(&self, hash: MoleculeHash) -> (count: usize)
        requires
            self.well_formed(),
        ensures
            count == self.molecules_spec(hash),
    {
        self.molecules.count(hash.0)
    }
}

} // verus!
