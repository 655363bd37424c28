//! Particles and molecules as they are built before they join a system.

use vstd::prelude::*;
use vstd::string::*;
use crate::kinds::ParticleKind;

verus! {

/// A particle: its name and, once a system has seen it, its kind.
pub struct Particle {
    pub name: String,
    pub kind: ParticleKind,
}

impl Particle {
    /// A particle called `name`, without a kind yet.
    pub fn new(name: &str) -> (particle: Particle)
        ensures
            particle.name@ == name@,
            particle.kind.0 == u32::MAX,
    {
        Particle { name: name.to_owned(), kind: ParticleKind::invalid() }
    }
}

/// A value that tells molecules of different make apart: equal for two
/// molecules with the same kinds and the same bonds, in the same order.
#[derive(Clone, Copy, Debug, PartialEq, Eq, Structural, Hash)]
pub struct MoleculeHash(pub u64);

/// The value from which every hash starts.
pub const HASH_OFFSET: u64 = 0xcbf2_9ce4_8422_2325;

/// The multiplier of one hashing step.
pub const HASH_PRIME: u64 = 0x0000_0100_0000_01b3;

/// One hashing step: mix `word` into `hash`, then multiply modulo 2^64.
pub open spec fn hash_step(hash: u64, word: u64) -> u64 {
    (((hash ^ word) as int * HASH_PRIME as int) % 0x1_0000_0000_0000_0000) as u64
}

/// The hash after the first `count` kinds have gone into `start`.
pub open spec fn hash_kinds(start: u64, kinds: Seq<ParticleKind>, count: nat) -> u64
    decreases count,
{
    if count == 0 {
        start
    } else {
        hash_step(hash_kinds(start, kinds, (count - 1) as nat), kinds[count - 1].0 as u64)
    }
}

/// The hash after the first `count` bonds have gone into `start`, each by
/// its first end and then its second.
pub open spec fn hash_bonds(start: u64, bonds: Seq<(usize, usize)>, count: nat) -> u64
    decreases count,
{
    if count == 0 {
        start
    } else {
        hash_step(
            hash_step(hash_bonds(start, bonds, (count - 1) as nat), bonds[count - 1].0 as u64),
            bonds[count - 1].1 as u64,
        )
    }
}

/// The hash of a molecule with these kinds and bonds: its size goes in
/// first, then its kinds, then its bonds.
pub open spec fn molecule_hash(kinds: Seq<ParticleKind>, bonds: Seq<(usize, usize)>) -> u64 {
    hash_bonds(
        hash_kinds(hash_step(HASH_OFFSET, kinds.len() as u64), kinds, kinds.len()),
        bonds,
        bonds.len(),
    )
}

/// Whether `bond` joins the particles `i` and `j`, in either direction.
pub open spec fn joins(bond: (usize, usize), i: int, j: int) -> bool {
    (bond.0 == i && bond.1 == j) || (bond.0 == j && bond.1 == i)
}

/// Whether some bond joins `i` and `j`.
pub open spec fn bonded(bonds: Seq<(usize, usize)>, i: int, j: int) -> bool {
    exists|b: int| 0 <= b < bonds.len() && joins(#[trigger] bonds[b], i, j)
}

/// Whether some of `bonds` joins `i` and `j`.
pub fn has_bond(bonds: &Vec<(usize, usize)>, i: usize, j: usize) -> (found: bool)
    ensures
        found == bonded(bonds@, i as int, j as int),
{
    let mut b: usize = 0;
    while b < bonds.len()
        invariant
            b <= bonds.len(),
            forall|k: int| 0 <= k < b ==> !joins(#[trigger] bonds@[k], i as int, j as int),
        decreases bonds.len() - b,
    {
        let ends = bonds[b];
        if (ends.0 == i && ends.1 == j) || (ends.0 == j && ends.1 == i) {
            return true;
        }
        b += 1;
    }
    false
}

/// The hash of a molecule with the kinds `kinds` and the bonds `bonds`.
pub fn hash_of(kinds: &Vec<ParticleKind>, bonds: &Vec<(usize, usize)>) -> (hash: MoleculeHash)
    ensures
        hash.0 == molecule_hash(kinds@, bonds@),
{
    let mut value = step(HASH_OFFSET, kinds.len() as u64);
    let mut i: usize = 0;
    while i < kinds.len()
        invariant
            i <= kinds.len(),
            value == hash_kinds(hash_step(HASH_OFFSET, kinds@.len() as u64), kinds@, i as nat),
        decreases kinds.len() - i,
    {
        value = step(value, kinds[i].0 as u64);
        i += 1;
    }
    let ghost after_kinds = value;
    let mut b: usize = 0;
    while b < bonds.len()
        invariant
            b <= bonds.len(),
            value == hash_bonds(after_kinds, bonds@, b as nat),
        decreases bonds.len() - b,
    {
        let ends = bonds[b];
        value = step(step(value, ends.0 as u64), ends.1 as u64);
        b += 1;
    }
    MoleculeHash(value)
}

/// One hashing step.
fn step(hash: u64, word: u64) -> (mixed: u64)
    ensures
        mixed == hash_step(hash, word),
{
    (hash ^ word).wrapping_mul(HASH_PRIME)
}

/// Every bond joins two different particles of a molecule of `size`.
pub open spec fn bonds_within(bonds: Seq<(usize, usize)>, size: int) -> bool {
    forall|b: int|
        0 <= b < bonds.len() ==> (#[trigger] bonds[b]).0 < size && bonds[b].1 < size && bonds[b].0
            != bonds[b].1
}

/// A molecule on its own: at least one particle, and bonds between its
/// particles, which are counted from zero within the molecule.
pub struct Molecule {
    names: Vec<String>,
    kinds: Vec<ParticleKind>,
    bonds: Vec<(usize, usize)>,
}

impl Molecule {
    /// The names of the particles.
    pub closed spec fn names(&self) -> Seq<Seq<char>> {
        Seq::new(self.names@.len(), |i: int| self.names@[i]@)
    }

    /// The kinds of the particles.
    pub closed spec fn kinds(&self) -> Seq<ParticleKind> {
        self.kinds@
    }

    /// The bonds, in the order in which they were made.
    pub closed spec fn bonds(&self) -> Seq<(usize, usize)> {
        self.bonds@
    }

    /// There is a particle, each particle has a name and a kind, and every
    /// bond joins two different particles of the molecule.
    pub closed spec fn well_formed(&self) -> bool {
        &&& self.names@.len() >= 1
        &&& self.names@.len() == self.kinds@.len()
        &&& bonds_within(self.bonds@, self.names@.len() as int)
    }

    /// What `well_formed` means in terms of the molecule's contents.
    pub proof fn lemma_well_formed(&self)
        requires
            self.well_formed(),
        ensures
            self.names().len() >= 1,
            self.names().len() == self.kinds().len(),
            bonds_within(self.bonds(), self.names().len() as int),
    {
    }

    /// A molecule of the single particle `particle`.
    pub fn new(particle: Particle) -> (molecule: Molecule)
        ensures
            molecule.well_formed(),
            molecule.names() == seq![particle.name@],
            molecule.kinds() == seq![particle.kind],
            molecule.bonds() == Seq::<(usize, usize)>::empty(),
    {
        let mut names = Vec::new();
        let mut kinds = Vec::new();
        names.push(particle.name);
        kinds.push(particle.kind);
        let molecule = Molecule { names, kinds, bonds: Vec::new() };
        assert(molecule.names() =~= seq![particle.name@]);
        molecule
    }

    /// The number of particles.
    pub fn size(&self) -> (size: usize)
        ensures
            size == self.names().len(),
    {
        self.names.len()
    }

    /// The name of particle `i`.
    pub fn name(&self, i: usize) -> (name: &str)
        requires
            i < self.names().len(),
        ensures
            name@ == self.names()[i as int],
    {
        self.names[i].as_str()
    }

    /// The kind of particle `i`.
    pub fn kind(&self, i: usize) -> (kind: ParticleKind)
        requires
            self.well_formed(),
            i < self.names().len(),
        ensures
            kind == self.kinds()[i as int],
    {
        self.kinds[i]
    }

    /// Give particle `i` the kind `kind`.
    pub fn set_kind(&mut self, i: usize, kind: ParticleKind)
        requires
            old(self).well_formed(),
            i < old(self).names().len(),
        ensures
            final(self).well_formed(),
            final(self).names() == old(self).names(),
            final(self).bonds() == old(self).bonds(),
            final(self).kinds() == old(self).kinds().update(i as int, kind),
    {
        self.kinds[i] = kind;
        assert(self.names() =~= old(self).names());
    }

    /// The number of bonds.
    pub fn bonds_count(&self) -> (count: usize)
        ensures
            count == self.bonds().len(),
    {
        self.bonds.len()
    }

    /// The two ends of bond `b`.
    pub fn bond(&self, b: usize) -> (ends: (usize, usize))
        requires
            b < self.bonds().len(),
        ensures
            ends == self.bonds()[b as int],
    {
        self.bonds[b]
    }

    /// Bond the particles `i` and `j` of the molecule.
    ///
    /// Returns `false`, and changes nothing, unless `i` and `j` are two
    /// different particles of the molecule that no bond joins yet.
    pub fn add_bond(&mut self, i: usize, j: usize) -> (added: bool)
        requires
            old(self).well_formed(),
        ensures
            final(self).well_formed(),
            final(self).names() == old(self).names(),
            final(self).kinds() == old(self).kinds(),
            added == (i < old(self).names().len() && j < old(self).names().len() && i != j
                && !bonded(old(self).bonds(), i as int, j as int)),
            final(self).bonds() == if added {
                old(self).bonds().push((i, j))
            } else {
                old(self).bonds()
            },
    {
        if i < self.names.len() && j < self.names.len() && i != j && !has_bond(&self.bonds, i, j) {
            self.bonds.push((i, j));
            assert(self.names() =~= old(self).names());
            true
        } else {
            false
        }
    }

    /// Add `particle` at the end of the molecule, bonded to particle `other`.
    ///
    /// Returns `false`, and changes nothing, unless `other` is a particle of
    /// the molecule.
    pub fn add_particle_bonded_to(&mut self, other: usize, particle: Particle) -> (added: bool)
        requires
            old(self).well_formed(),
        ensures
            final(self).well_formed(),
            added == (other < old(self).names().len()),
            added ==> final(self).names() == old(self).names().push(particle.name@)
                && final(self).kinds() == old(self).kinds().push(particle.kind)
                && final(self).bonds() == old(self).bonds().push(
                (other, old(self).names().len() as usize),
            ),
            !added ==> final(self).names() == old(self).names() && final(self).kinds() == old(self).kinds() && final(self).bonds() == old(self).bonds(),
    {
        if other < self.names.len() {
            let last = self.names.len();
            self.names.push(particle.name);
            self.kinds.push(particle.kind);
            self.bonds.push((other, last));
            assert(self.names() =~= old(self).names().push(particle.name@));
            true
        } else {
            false
        }
    }

    /// The hash of the molecule, from its kinds and its bonds.
    pub fn hash(&self) -> (hash: MoleculeHash)
        requires
            self.well_formed(),
        ensures
            hash.0 == molecule_hash(self.kinds(), self.bonds()),
    {
        hash_of(&self.kinds, &self.bonds)
    }
}

} // verus!
