//! The configuration of a system: its cell, its particles, the molecule
//! that each particle belongs to, and the bonds.

use vstd::prelude::*;
use vstd::string::*;
use crate::kinds::ParticleKind;
use crate::composition::count_in;
use crate::molecule::{
    Molecule,
    MoleculeHash,
    bonded,
    bonds_within,
    has_bond,
    hash_of,
    joins,
    molecule_hash,
};
use crate::quantities::UnitCell;
use crate::restrictions::BondPath;

verus! {

/// The particles of a configuration, one entry of each field per particle.
pub struct Particles {
    pub name: Vec<String>,
    pub kind: Vec<ParticleKind>,
}

/// Whether a path of two bonds leads from `i` to `j`.
pub open spec fn two_bonds_apart(bonds: Seq<(usize, usize)>, i: int, j: int) -> bool {
    exists|k: int| #[trigger] bonded(bonds, i, k) && bonded(bonds, k, j)
}

/// Whether a path of three bonds leads from `i` to `j`.
pub open spec fn three_bonds_apart(bonds: Seq<(usize, usize)>, i: int, j: int) -> bool {
    exists|k: int| #[trigger] bonded(bonds, i, k) && two_bonds_apart(bonds, k, j)
}

/// How `i` and `j` are connected, given the molecule of each particle and
/// the bonds: by the shortest path of up to three bonds.
pub open spec fn path_between(
    molecule_ids: Seq<usize>,
    bonds: Seq<(usize, usize)>,
    i: int,
    j: int,
) -> BondPath {
    if i == j {
        BondPath::SameParticle
    } else if molecule_ids[i] != molecule_ids[j] {
        BondPath::Unconnected
    } else if bonded(bonds, i, j) {
        BondPath::OneBond
    } else if two_bonds_apart(bonds, i, j) {
        BondPath::TwoBonds
    } else if three_bonds_apart(bonds, i, j) {
        BondPath::ThreeBonds
    } else {
        BondPath::Far
    }
}

/// The bonds `bonds` of a molecule, with `offset` added to each end.
pub open spec fn shifted(bonds: Seq<(usize, usize)>, offset: int) -> Seq<(usize, usize)> {
    Seq::new(bonds.len(), |b: int| ((bonds[b].0 + offset) as usize, (bonds[b].1 + offset) as usize))
}

/// The end of `bond` that is not `i`, if `i` is one of its ends.
pub open spec fn other_end(bond: (usize, usize), i: int) -> Option<int> {
    if bond.0 == i {
        Some(bond.1 as int)
    } else if bond.1 == i {
        Some(bond.0 as int)
    } else {
        None
    }
}

/// The kinds of the particles of molecule `molecule` among the first
/// `count` particles, in their order.
pub open spec fn kinds_in(
    molecule_ids: Seq<usize>,
    kinds: Seq<ParticleKind>,
    molecule: usize,
    count: nat,
) -> Seq<ParticleKind>
    decreases count,
{
    if count == 0 {
        Seq::empty()
    } else if molecule_ids[count - 1] == molecule {
        kinds_in(molecule_ids, kinds, molecule, (count - 1) as nat).push(kinds[count - 1])
    } else {
        kinds_in(molecule_ids, kinds, molecule, (count - 1) as nat)
    }
}

/// The place of particle `particle` within the molecule `molecule`: the
/// number of particles of the molecule that stand before it.
pub open spec fn rank_in(molecule_ids: Seq<usize>, molecule: usize, particle: int) -> usize {
    count_in(molecule_ids, particle as nat, molecule) as usize
}

/// The bonds of molecule `molecule` among the first `count` bonds, in their
/// order, each end by its place within the molecule.
pub open spec fn bonds_in(
    molecule_ids: Seq<usize>,
    bonds: Seq<(usize, usize)>,
    molecule: usize,
    count: nat,
) -> Seq<(usize, usize)>
    decreases count,
{
    if count == 0 {
        Seq::empty()
    } else if molecule_ids[bonds[count - 1].0 as int] == molecule {
        bonds_in(molecule_ids, bonds, molecule, (count - 1) as nat).push(
            (
                rank_in(molecule_ids, molecule, bonds[count - 1].0 as int),
                rank_in(molecule_ids, molecule, bonds[count - 1].1 as int),
            ),
        )
    } else {
        bonds_in(molecule_ids, bonds, molecule, (count - 1) as nat)
    }
}

/// The hash of molecule `molecule`: that of its kinds and its bonds.
pub open spec fn hash_in(
    molecule_ids: Seq<usize>,
    kinds: Seq<ParticleKind>,
    bonds: Seq<(usize, usize)>,
    molecule: usize,
) -> MoleculeHash {
    MoleculeHash(
        molecule_hash(
            kinds_in(molecule_ids, kinds, molecule, molecule_ids.len()),
            bonds_in(molecule_ids, bonds, molecule, bonds.len()),
        ),
    )
}

/// The molecule numbers after the molecules `kept` and `gone` became one,
/// for `kept < gone`: the particles of `gone` join `kept`, and every later
/// molecule moves down by one.
pub open spec fn merged(molecule_ids: Seq<usize>, kept: usize, gone: usize) -> Seq<usize> {
    Seq::new(
        molecule_ids.len(),
        |p: int|
            if molecule_ids[p] == gone {
                kept
            } else if molecule_ids[p] > gone {
                (molecule_ids[p] - 1) as usize
            } else {
                molecule_ids[p]
            },
    )
}

/// The cell, the particles, their molecules and the bonds of a system.
pub struct Configuration {
    cell: UnitCell,
    particles: Particles,
    molecule_ids: Vec<usize>,
    molecule_count: usize,
    bonds: Vec<(usize, usize)>,
}

impl Configuration {
    /// The cell that holds the system.
    pub closed spec fn cell_spec(&self) -> UnitCell {
        self.cell
    }

    /// The names of the particles.
    pub closed spec fn names(&self) -> Seq<Seq<char>> {
        Seq::new(self.particles.name@.len(), |i: int| self.particles.name@[i]@)
    }

    /// The kinds of the particles.
    pub closed spec fn kinds(&self) -> Seq<ParticleKind> {
        self.particles.kind@
    }

    /// For each particle, the number of its molecule.
    pub closed spec fn molecule_ids(&self) -> Seq<usize> {
        self.molecule_ids@
    }

    /// The number of molecules.
    pub closed spec fn molecule_count(&self) -> usize {
        self.molecule_count
    }

    /// For each molecule, its hash.
    pub open spec fn molecule_hashes(&self) -> Seq<MoleculeHash> {
        Seq::new(
            self.molecule_count() as nat,
            |m: int| hash_in(self.molecule_ids(), self.kinds(), self.bonds(), m as usize),
        )
    }

    /// The bonds, each by the indices of the two particles it joins.
    pub closed spec fn bonds(&self) -> Seq<(usize, usize)> {
        self.bonds@
    }

    /// Every particle has a name, a kind and a molecule; every molecule has
    /// a particle; every bond joins two different particles of one molecule.
    pub closed spec fn well_formed(&self) -> bool {
        &&& self.particles.name@.len() == self.particles.kind@.len()
        &&& self.particles.name@.len() == self.molecule_ids@.len()
        &&& self.molecule_count <= self.molecule_ids@.len()
        &&& forall|i: int|
            0 <= i < self.molecule_ids@.len() ==> (#[trigger] self.molecule_ids@[i])
                < self.molecule_count
        &&& forall|m: usize| m < self.molecule_count ==> #[trigger] self.molecule_ids@.contains(m)
        &&& bonds_within(self.bonds@, self.molecule_ids@.len() as int)
        &&& forall|b: int|
            0 <= b < self.bonds@.len() ==> self.molecule_ids@[(#[trigger] self.bonds@[b]).0 as int]
                == self.molecule_ids@[self.bonds@[b].1 as int]
    }

    /// What `well_formed` means in terms of the configuration's contents.
    pub proof fn lemma_well_formed(&self)
        requires
            self.well_formed(),
        ensures
            self.names().len() == self.kinds().len(),
            self.names().len() == self.molecule_ids().len(),
            self.molecule_hashes().len() == self.molecule_count(),
            self.molecule_count() <= self.names().len(),
            forall|i: int|
                0 <= i < self.molecule_ids().len() ==> (#[trigger] self.molecule_ids()[i])
                    < self.molecule_count(),
            forall|m: usize| m < self.molecule_count() ==> #[trigger] self.molecule_ids().contains(m),
            bonds_within(self.bonds(), self.names().len() as int),
            forall|b: int|
                0 <= b < self.bonds().len() ==> self.molecule_ids()[(#[trigger] self.bonds()[b]).0 as int]
                    == self.molecule_ids()[self.bonds()[b].1 as int],
    {
    }

    /// An empty configuration in an infinite cell.
    pub fn new() -> (configuration: Configuration)
        ensures
            configuration.well_formed(),
            configuration.cell_spec() == UnitCell::new_spec(),
            configuration.cell_spec().shape is Infinite,
            configuration.names().len() == 0,
            configuration.kinds().len() == 0,
            configuration.molecule_ids().len() == 0,
            configuration.molecule_count() == 0,
            configuration.bonds().len() == 0,
    {
        Configuration {
            cell: UnitCell::new(),
            particles: Particles { name: Vec::new(), kind: Vec::new() },
            molecule_ids: Vec::new(),
            molecule_count: 0,
            bonds: Vec::new(),
        }
    }

    /// The cell that holds the system.
    #[verifier::when_used_as_spec(cell_spec)]
    pub fn cell(&self) -> (cell: UnitCell)
        ensures
            cell == self.cell_spec(),
    {
        self.cell
    }

    /// Put the system into `cell`; nothing else changes.
    pub fn set_cell(&mut self, cell: UnitCell)
        ensures
            final(self).cell_spec() == cell,
            final(self).names() == old(self).names(),
            final(self).kinds() == old(self).kinds(),
            final(self).molecule_ids() == old(self).molecule_ids(),
            final(self).molecule_count() == old(self).molecule_count(),
            final(self).bonds() == old(self).bonds(),
            final(self).well_formed() == old(self).well_formed(),
    {
        self.cell = cell;
    }

    /// The number of particles.
    pub fn size(&self) -> (size: usize)
        ensures
            size == self.names().len(),
    {
        self.particles.name.len()
    }

    /// The particles: their names and their kinds.
    pub fn particles(&self) -> (particles: &Particles)
        ensures
            particles.kind@ == self.kinds(),
            particles.name@.len() == self.names().len(),
            forall|i: int| 0 <= i < self.names().len() ==> particles.name@[i]@ == self.names()[i],
    {
        &self.particles
    }

    /// The number of molecules.
    pub fn molecules_count(&self) -> (count: usize)
        ensures
            count == self.molecule_count(),
    {
        self.molecule_count
    }

    /// The hash of molecule `molecule`, from the kinds of its particles in
    /// their order and from its bonds, each end by its place within the
    /// molecule.
    pub fn molecule_hash(&self, molecule: usize) -> (hash: MoleculeHash)
        requires
            self.well_formed(),
        ensures
            hash == hash_in(self.molecule_ids(), self.kinds(), self.bonds(), molecule),
    {
        let size = self.molecule_ids.len();
        let mut kinds: Vec<ParticleKind> = Vec::new();
        let mut ranks: Vec<usize> = Vec::new();
        let mut members: usize = 0;
        let mut p: usize = 0;
        while p < size
            invariant
                self.well_formed(),
                size == self.molecule_ids@.len(),
                p <= size,
                kinds@ == kinds_in(self.molecule_ids@, self.particles.kind@, molecule, p as nat),
                ranks@.len() == p,
                members == count_in(self.molecule_ids@, p as nat, molecule),
                members <= p,
                forall|q: int| 0 <= q < p ==> ranks@[q] == rank_in(self.molecule_ids@, molecule, q),
            decreases size - p,
        {
            ranks.push(members);
            if self.molecule_ids[p] == molecule {
                kinds.push(self.particles.kind[p]);
                members += 1;
            }
            p += 1;
        }
        let mut bonds: Vec<(usize, usize)> = Vec::new();
        let mut b: usize = 0;
        while b < self.bonds.len()
            invariant
                self.well_formed(),
                size == self.molecule_ids@.len(),
                b <= self.bonds.len(),
                ranks@.len() == size,
                forall|q: int| 0 <= q < size ==> ranks@[q] == rank_in(self.molecule_ids@, molecule, q),
                bonds@ == bonds_in(self.molecule_ids@, self.bonds@, molecule, b as nat),
            decreases self.bonds.len() - b,
        {
            let ends = self.bonds[b];
            assert(self.bonds@[b as int].0 < size && self.bonds@[b as int].1 < size);
            if self.molecule_ids[ends.0] == molecule {
                bonds.push((ranks[ends.0], ranks[ends.1]));
            }
            b += 1;
        }
        hash_of(&kinds, &bonds)
    }

    /// The hashes of the molecules, one for each molecule.
    pub fn molecules(&self) -> (hashes: Vec<MoleculeHash>)
        requires
            self.well_formed(),
        ensures
            hashes@ == self.molecule_hashes(),
    {
        let mut hashes: Vec<MoleculeHash> = Vec::new();
        let mut m: usize = 0;
        while m < self.molecule_count
            invariant
                self.well_formed(),
                m <= self.molecule_count,
                hashes@.len() == m,
                forall|k: int|
                    0 <= k < m ==> hashes@[k] == hash_in(
                        self.molecule_ids(),
                        self.kinds(),
                        self.bonds(),
                        k as usize,
                    ),
            decreases self.molecule_count - m,
        {
            hashes.push(self.molecule_hash(m));
            m += 1;
        }
        assert(hashes@ =~= self.molecule_hashes());
        hashes
    }

    /// For each particle, the number of its molecule.
    pub fn molecule_numbers(&self) -> (ids: &Vec<usize>)
        ensures
            ids@ == self.molecule_ids(),
    {
        &self.molecule_ids
    }

    /// The bonds, each by the indices of the two particles it joins.
    pub fn bond_list(&self) -> (bonds: &Vec<(usize, usize)>)
        ensures
            bonds@ == self.bonds(),
    {
        &self.bonds
    }

    /// The number of the molecule that holds particle `i`.
    pub fn molecule_id(&self, i: usize) -> (id: usize)
        requires
            self.well_formed(),
            i < self.names().len(),
        ensures
            id == self.molecule_ids()[i as int],
            id < self.molecule_count(),
    {
        self.molecule_ids[i]
    }

    /// Whether the particles `i` and `j` are in one molecule.
    pub fn are_in_same_molecule(&self, i: usize, j: usize) -> (same: bool)
        requires
            self.well_formed(),
            i < self.names().len(),
            j < self.names().len(),
        ensures
            same == (self.molecule_ids()[i as int] == self.molecule_ids()[j as int]),
    {
        self.molecule_ids[i] == self.molecule_ids[j]
    }

    /// Add `molecule` at the end of the configuration: its particles get the
    /// next indices, and form a new molecule with the bonds it had.
    pub fn add_molecule(&mut self, molecule: &Molecule)
        requires
            old(self).well_formed(),
            molecule.well_formed(),
        ensures
            final(self).well_formed(),
            final(self).cell_spec() == old(self).cell_spec(),
            final(self).names() == old(self).names() + molecule.names(),
            final(self).kinds() == old(self).kinds() + molecule.kinds(),
            final(self).molecule_count() == old(self).molecule_count() + 1,
            final(self).molecule_ids() == old(self).molecule_ids() + Seq::new(
                molecule.names().len(),
                |i: int| old(self).molecule_count(),
            ),
            final(self).molecule_hashes() == old(self).molecule_hashes().push(
                MoleculeHash(molecule_hash(molecule.kinds(), molecule.bonds())),
            ),
            final(self).bonds() == old(self).bonds() + shifted(
                molecule.bonds(),
                old(self).names().len() as int,
            ),
    {
        proof {
            molecule.lemma_well_formed();
        }
        let offset = self.particles.name.len();
        let id = self.molecule_count;
        let mut i: usize = 0;
        while i < molecule.size()
            invariant
                i <= molecule.names().len(),
                molecule.well_formed(),
                molecule.names().len() == molecule.kinds().len(),
                old(self).well_formed(),
                offset == old(self).names().len(),
                id == old(self).molecule_count,
                self.molecule_count == id,
                self.cell == old(self).cell,
                self.bonds@ == old(self).bonds@,
                self.particles.name@.len() == offset + i,
                self.particles.kind@.len() == offset + i,
                self.molecule_ids@.len() == offset + i,
                forall|k: int| 0 <= k < offset ==> self.particles.name@[k] == old(self).particles.name@[k],
                forall|k: int|
                    offset <= k < offset + i ==> (#[trigger] self.particles.name@[k])@
                        == molecule.names()[k - offset],
                forall|k: int| 0 <= k < offset ==> self.particles.kind@[k] == old(self).particles.kind@[k],
                forall|k: int|
                    offset <= k < offset + i ==> #[trigger] self.particles.kind@[k]
                        == molecule.kinds()[k - offset],
                forall|k: int| 0 <= k < offset ==> self.molecule_ids@[k] == old(self).molecule_ids@[k],
                forall|k: int| offset <= k < offset + i ==> #[trigger] self.molecule_ids@[k] == id,
            decreases molecule.names().len() - i,
        {
            self.particles.name.push(molecule.name(i).to_owned());
            self.particles.kind.push(molecule.kind(i));
            self.molecule_ids.push(id);
            i += 1;
        }
        let size = molecule.size();
        let total = self.molecule_ids.len();
        self.molecule_count = id + 1;
        let ghost filled = *self;
        let mut b: usize = 0;
        while b < molecule.bonds_count()
            invariant
                b <= molecule.bonds().len(),
                size == molecule.names().len(),
                bonds_within(molecule.bonds(), size as int),
                total == offset + size,
                total == self.molecule_ids@.len(),
                self.cell == filled.cell,
                self.particles == filled.particles,
                self.molecule_ids == filled.molecule_ids,
                self.molecule_count == filled.molecule_count,
                self.bonds@.len() == old(self).bonds@.len() + b,
                forall|k: int| 0 <= k < old(self).bonds@.len() ==> self.bonds@[k] == old(self).bonds@[k],
                forall|k: int|
                    old(self).bonds@.len() <= k < old(self).bonds@.len() + b ==> #[trigger] self.bonds@[k]
                        == shifted(molecule.bonds(), offset as int)[k - old(self).bonds@.len()],
            decreases molecule.bonds().len() - b,
        {
            let ends = molecule.bond(b);
            self.bonds.push((offset + ends.0, offset + ends.1));
            b += 1;
        }
        proof {
            let ids = old(self).molecule_ids@;
            assert(self.names() =~= old(self).names() + molecule.names());
            assert(self.kinds() =~= old(self).kinds() + molecule.kinds());
            assert(self.molecule_ids() =~= ids + Seq::new(molecule.names().len(), |i: int| id));
            assert(self.bonds() =~= old(self).bonds() + shifted(
                molecule.bonds(),
                old(self).names().len() as int,
            ));
            assert forall|k: int| 0 <= k < self.bonds@.len() implies (#[trigger] self.bonds@[k]).0
                < self.molecule_ids@.len() && self.bonds@[k].1 < self.molecule_ids@.len()
                && self.bonds@[k].0 != self.bonds@[k].1 && self.molecule_ids@[self.bonds@[k].0 as int]
                == self.molecule_ids@[self.bonds@[k].1 as int] by {
                if k < old(self).bonds@.len() {
                    assert(self.bonds@[k] == old(self).bonds@[k]);
                } else {
                    let m = k - old(self).bonds@.len();
                    assert(self.bonds@[k] == shifted(molecule.bonds(), offset as int)[m]);
                    let e = molecule.bonds()[m];
                    assert(e.0 < size && e.1 < size);
                    assert(self.molecule_ids@[offset + e.0] == id);
                    assert(self.molecule_ids@[offset + e.1] == id);
                }
            }
            assert forall|m: usize| m < self.molecule_count implies #[trigger] self.molecule_ids@.contains(
                m,
            ) by {
                if m < id {
                    assert(ids.contains(m));
                    let p = choose|p: int| 0 <= p < ids.len() && ids[p] == m;
                    assert(self.molecule_ids@[p] == m);
                } else {
                    assert(self.molecule_ids@[offset as int] == id);
                }
            }
            lemma_hashes_after_adding(
                ids,
                old(self).kinds(),
                old(self).bonds(),
                id,
                molecule.kinds(),
                molecule.bonds(),
            );
            assert(self.molecule_hashes() =~= old(self).molecule_hashes().push(
                MoleculeHash(molecule_hash(molecule.kinds(), molecule.bonds())),
            ));
        }
    }

    /// Bond the particles `i` and `j`. If they were in two molecules, the
    /// two become one: it takes the smaller of their numbers, and every
    /// molecule with a larger number than the other moves down by one.
    ///
    /// Returns `false`, and changes nothing, unless `i` and `j` are two
    /// different particles that no bond joins yet.
    pub fn add_bond(&mut self, i: usize, j: usize) -> (added: bool)
        requires
            old(self).well_formed(),
        ensures
            final(self).well_formed(),
            final(self).cell_spec() == old(self).cell_spec(),
            final(self).names() == old(self).names(),
            final(self).kinds() == old(self).kinds(),
            added == (i < old(self).names().len() && j < old(self).names().len() && i != j
                && !bonded(old(self).bonds(), i as int, j as int)),
            final(self).bonds() == if added {
                old(self).bonds().push((i, j))
            } else {
                old(self).bonds()
            },
            ({
                let ids = old(self).molecule_ids();
                if added && ids[i as int] != ids[j as int] {
                    let kept = if ids[i as int] < ids[j as int] {
                        ids[i as int]
                    } else {
                        ids[j as int]
                    };
                    let gone = if ids[i as int] < ids[j as int] {
                        ids[j as int]
                    } else {
                        ids[i as int]
                    };
                    final(self).molecule_ids() == merged(ids, kept, gone) && final(self).molecule_count() == old(self).molecule_count() - 1
                } else {
                    final(self).molecule_ids() == ids && final(self).molecule_count() == old(self).molecule_count()
                }
            }),
    {
        let size = self.molecule_ids.len();
        if !(i < size && j < size && i != j) || has_bond(&self.bonds, i, j) {
            return false;
        }
        let first = self.molecule_ids[i];
        let second = self.molecule_ids[j];
        if first != second {
            let kept = if first < second { first } else { second };
            let gone = if first < second { second } else { first };
            let mut p: usize = 0;
            while p < size
                invariant
                    old(self).well_formed(),
                    size == old(self).molecule_ids@.len(),
                    kept < gone < old(self).molecule_count,
                    p <= size,
                    self.cell == old(self).cell,
                    self.particles == old(self).particles,
                    self.bonds == old(self).bonds,
                    self.molecule_count == old(self).molecule_count,
                    self.molecule_ids@.len() == size,
                    forall|q: int|
                        0 <= q < p ==> self.molecule_ids@[q] == merged(
                            old(self).molecule_ids@,
                            kept,
                            gone,
                        )[q],
                    forall|q: int| p <= q < size ==> self.molecule_ids@[q] == old(self).molecule_ids@[q],
                decreases size - p,
            {
                let id = self.molecule_ids[p];
                if id == gone {
                    self.molecule_ids[p] = kept;
                } else if id > gone {
                    self.molecule_ids[p] = id - 1;
                }
                p += 1;
            }
            self.molecule_count = self.molecule_count - 1;
            proof {
                let ids = old(self).molecule_ids@;
                assert(self.molecule_ids@ =~= merged(ids, kept, gone));
                assert forall|m: usize| m < self.molecule_count implies #[trigger] self.molecule_ids@.contains(
                    m,
                ) by {
                    let before: usize = if m < gone {
                        m
                    } else {
                        (m + 1) as usize
                    };
                    assert(ids.contains(before));
                    let q = choose|q: int| 0 <= q < ids.len() && ids[q] == before;
                    assert(self.molecule_ids@[q] == m);
                }
            }
        }
        self.bonds.push((i, j));
        proof {
            assert forall|b: int| 0 <= b < self.bonds@.len() implies self.molecule_ids@[(
            #[trigger] self.bonds@[b]).0 as int] == self.molecule_ids@[self.bonds@[b].1 as int] by {
                if b < old(self).bonds@.len() {
                    assert(self.bonds@[b] == old(self).bonds@[b]);
                }
            }
        }
        true
    }

    /// Whether a bond joins the particles `i` and `j`.
    pub fn is_bonded(&self, i: usize, j: usize) -> (found: bool)
        ensures
            found == bonded(self.bonds(), i as int, j as int),
    {
        has_bond(&self.bonds, i, j)
    }

    /// Whether a path of two bonds leads from `i` to `j`.
    fn is_two_bonds_apart(&self, i: usize, j: usize) -> (found: bool)
        ensures
            found == two_bonds_apart(self.bonds(), i as int, j as int),
    {
        let mut b: usize = 0;
        while b < self.bonds.len()
            invariant
                b <= self.bonds.len(),
                forall|k: int|
                    0 <= k < b ==> (other_end(#[trigger] self.bonds@[k], i as int) matches Some(
                        middle,
                    ) ==> !bonded(self.bonds@, middle, j as int)),
            decreases self.bonds.len() - b,
        {
            let ends = self.bonds[b];
            if ends.0 == i {
                if self.is_bonded(ends.1, j) {
                    assert(joins(self.bonds@[b as int], i as int, ends.1 as int));
                    assert(bonded(self.bonds@, i as int, ends.1 as int));
                    return true;
                }
            } else if ends.1 == i {
                if self.is_bonded(ends.0, j) {
                    assert(joins(self.bonds@[b as int], i as int, ends.0 as int));
                    assert(bonded(self.bonds@, i as int, ends.0 as int));
                    return true;
                }
            }
            b += 1;
        }
        proof {
            assert forall|k: int| #[trigger]
                bonded(self.bonds@, i as int, k) implies !bonded(self.bonds@, k, j as int) by {
                let w = choose|w: int|
                    0 <= w < self.bonds@.len() && joins(#[trigger] self.bonds@[w], i as int, k);
                assert(other_end(self.bonds@[w], i as int) == Some(k));
            }
        }
        false
    }

    /// Whether a path of three bonds leads from `i` to `j`.
    fn is_three_bonds_apart(&self, i: usize, j: usize) -> (found: bool)
        ensures
            found == three_bonds_apart(self.bonds(), i as int, j as int),
    {
        let mut b: usize = 0;
        while b < self.bonds.len()
            invariant
                b <= self.bonds.len(),
                forall|c: int|
                    0 <= c < b ==> (other_end(#[trigger] self.bonds@[c], i as int) matches Some(
                        first,
                    ) ==> !two_bonds_apart(self.bonds@, first, j as int)),
            decreases self.bonds.len() - b,
        {
            let ends = self.bonds[b];
            if ends.0 == i {
                if self.is_two_bonds_apart(ends.1, j) {
                    assert(joins(self.bonds@[b as int], i as int, ends.1 as int));
                    assert(bonded(self.bonds@, i as int, ends.1 as int));
                    return true;
                }
            } else if ends.1 == i {
                if self.is_two_bonds_apart(ends.0, j) {
                    assert(joins(self.bonds@[b as int], i as int, ends.0 as int));
                    assert(bonded(self.bonds@, i as int, ends.0 as int));
                    return true;
                }
            }
            b += 1;
        }
        proof {
            assert forall|k: int| #[trigger]
                bonded(self.bonds@, i as int, k) implies !two_bonds_apart(
                self.bonds@,
                k,
                j as int,
            ) by {
                let w = choose|w: int|
                    0 <= w < self.bonds@.len() && joins(#[trigger] self.bonds@[w], i as int, k);
                assert(other_end(self.bonds@[w], i as int) == Some(k));
            }
        }
        false
    }

    /// How the particles `i` and `j` are connected.
    pub fn bond_path(&self, i: usize, j: usize) -> (path: BondPath)
        requires
            self.well_formed(),
            i < self.names().len(),
            j < self.names().len(),
        ensures
            path == path_between(self.molecule_ids(), self.bonds(), i as int, j as int),
    {
        if i == j {
            BondPath::SameParticle
        } else if self.molecule_ids[i] != self.molecule_ids[j] {
            BondPath::Unconnected
        } else if self.is_bonded(i, j) {
            BondPath::OneBond
        } else if self.is_two_bonds_apart(i, j) {
            BondPath::TwoBonds
        } else if self.is_three_bonds_apart(i, j) {
            BondPath::ThreeBonds
        } else {
            BondPath::Far
        }
    }
}

/// The kinds of a molecule among the first particles depend on those
/// particles alone.
proof fn lemma_kinds_of_prefix(
    ids: Seq<usize>,
    kinds: Seq<ParticleKind>,
    longer_ids: Seq<usize>,
    longer_kinds: Seq<ParticleKind>,
    molecule: usize,
    count: nat,
)
    requires
        count <= ids.len() <= longer_ids.len(),
        count <= kinds.len() <= longer_kinds.len(),
        forall|p: int| 0 <= p < count ==> ids[p] == longer_ids[p] && kinds[p] == longer_kinds[p],
    ensures
        kinds_in(longer_ids, longer_kinds, molecule, count) == kinds_in(ids, kinds, molecule, count),
    decreases count,
{
    if count > 0 {
        lemma_kinds_of_prefix(ids, kinds, longer_ids, longer_kinds, molecule, (count - 1) as nat);
    }
}

/// The number of particles of a molecule among the first particles depends
/// on those particles alone.
proof fn lemma_count_of_prefix(ids: Seq<usize>, longer_ids: Seq<usize>, molecule: usize, count: nat)
    requires
        count <= ids.len() <= longer_ids.len(),
        forall|p: int| 0 <= p < count ==> ids[p] == longer_ids[p],
    ensures
        count_in(longer_ids, count, molecule) == count_in(ids, count, molecule),
    decreases count,
{
    if count > 0 {
        lemma_count_of_prefix(ids, longer_ids, molecule, (count - 1) as nat);
    }
}

/// A molecule has no particle among those that all belong to others.
proof fn lemma_count_of_strangers(
    ids: Seq<usize>,
    kinds: Seq<ParticleKind>,
    molecule: usize,
    count: nat,
)
    requires
        count <= ids.len(),
        forall|p: int| 0 <= p < count ==> ids[p] != molecule,
    ensures
        count_in(ids, count, molecule) == 0,
        kinds_in(ids, kinds, molecule, count) == Seq::<ParticleKind>::empty(),
    decreases count,
{
    if count > 0 {
        lemma_count_of_strangers(ids, kinds, molecule, (count - 1) as nat);
    }
}

/// After `before` particles of other molecules come the particles of the
/// molecule, one after the other: the first `more` of them are counted and
/// taken in their order.
proof fn lemma_block(
    ids: Seq<usize>,
    kinds: Seq<ParticleKind>,
    molecule: usize,
    before: nat,
    more: nat,
)
    requires
        before + more <= ids.len(),
        ids.len() == kinds.len(),
        forall|p: int| 0 <= p < before ==> ids[p] != molecule,
        forall|p: int| before <= p < before + more ==> ids[p] == molecule,
    ensures
        count_in(ids, before + more, molecule) == more,
        kinds_in(ids, kinds, molecule, before + more) == kinds.subrange(
            before as int,
            (before + more) as int,
        ),
    decreases more,
{
    if more == 0 {
        lemma_count_of_strangers(ids, kinds, molecule, before);
        assert(kinds.subrange(before as int, before as int) =~= Seq::<ParticleKind>::empty());
    } else {
        lemma_block(ids, kinds, molecule, before, (more - 1) as nat);
        assert(kinds.subrange(before as int, (before + more) as int) =~= kinds.subrange(
            before as int,
            before + more - 1,
        ).push(kinds[before + more - 1]));
    }
}

/// The bonds of a molecule among the first bonds depend on those bonds and
/// on the particles before their ends alone.
proof fn lemma_bonds_of_prefix(
    ids: Seq<usize>,
    bonds: Seq<(usize, usize)>,
    longer_ids: Seq<usize>,
    longer_bonds: Seq<(usize, usize)>,
    molecule: usize,
    count: nat,
)
    requires
        ids.len() <= longer_ids.len(),
        count <= bonds.len() <= longer_bonds.len(),
        forall|p: int| 0 <= p < ids.len() ==> ids[p] == longer_ids[p],
        forall|b: int| 0 <= b < count ==> bonds[b] == longer_bonds[b],
        bonds_within(bonds, ids.len() as int),
    ensures
        bonds_in(longer_ids, longer_bonds, molecule, count) == bonds_in(ids, bonds, molecule, count),
    decreases count,
{
    if count > 0 {
        lemma_bonds_of_prefix(ids, bonds, longer_ids, longer_bonds, molecule, (count - 1) as nat);
        let bond = bonds[count - 1];
        lemma_count_of_prefix(ids, longer_ids, molecule, bond.0 as nat);
        lemma_count_of_prefix(ids, longer_ids, molecule, bond.1 as nat);
    }
}

/// Bonds of other molecules are not bonds of the molecule.
proof fn lemma_bonds_of_strangers(
    ids: Seq<usize>,
    bonds: Seq<(usize, usize)>,
    molecule: usize,
    from: nat,
    count: nat,
)
    requires
        from <= count <= bonds.len(),
        forall|b: int| from <= b < count ==> ids[bonds[b].0 as int] != molecule,
    ensures
        bonds_in(ids, bonds, molecule, count) == bonds_in(ids, bonds, molecule, from),
    decreases count,
{
    if count > from {
        lemma_bonds_of_strangers(ids, bonds, molecule, from, (count - 1) as nat);
    }
}

/// What adding a molecule does to the hashes: the molecules that were there
/// keep theirs, and the new molecule has the hash of its own kinds and
/// bonds.
proof fn lemma_hashes_after_adding(
    ids: Seq<usize>,
    kinds: Seq<ParticleKind>,
    bonds: Seq<(usize, usize)>,
    added: usize,
    new_kinds: Seq<ParticleKind>,
    new_bonds: Seq<(usize, usize)>,
)
    requires
        ids.len() == kinds.len(),
        ids.len() + new_kinds.len() <= usize::MAX,
        forall|p: int| 0 <= p < ids.len() ==> ids[p] < added,
        bonds_within(bonds, ids.len() as int),
        bonds_within(new_bonds, new_kinds.len() as int),
    ensures
        ({
            let all_ids = ids + Seq::new(new_kinds.len(), |i: int| added);
            let all_kinds = kinds + new_kinds;
            let all_bonds = bonds + shifted(new_bonds, ids.len() as int);
            &&& hash_in(all_ids, all_kinds, all_bonds, added) == MoleculeHash(
                molecule_hash(new_kinds, new_bonds),
            )
            &&& forall|m: usize|
                m < added ==> #[trigger] hash_in(all_ids, all_kinds, all_bonds, m) == hash_in(
                    ids,
                    kinds,
                    bonds,
                    m,
                )
        }),
{
    let size = ids.len();
    let all_ids = ids + Seq::new(new_kinds.len(), |i: int| added);
    let all_kinds = kinds + new_kinds;
    let shifted_bonds = shifted(new_bonds, size as int);
    let all_bonds = bonds + shifted_bonds;
    assert forall|m: usize| m < added implies #[trigger] hash_in(all_ids, all_kinds, all_bonds, m)
        == hash_in(ids, kinds, bonds, m) by {
        lemma_kinds_of_prefix(ids, kinds, all_ids, all_kinds, m, size);
        lemma_tail_of_strangers(all_ids, all_kinds, m, size, all_ids.len());
        lemma_bonds_of_prefix(ids, bonds, all_ids, all_bonds, m, bonds.len());
        assert forall|b: int| bonds.len() <= b < all_bonds.len() implies all_ids[all_bonds[b].0 as int]
            != m by {
            assert(all_bonds[b] == shifted_bonds[b - bonds.len()]);
        }
        lemma_bonds_of_strangers(all_ids, all_bonds, m, bonds.len(), all_bonds.len());
    }
    lemma_block(all_ids, all_kinds, added, size, new_kinds.len());
    assert(all_kinds.subrange(size as int, (size + new_kinds.len()) as int) =~= new_kinds);
    assert forall|b: int| 0 <= b < bonds.len() implies all_ids[all_bonds[b].0 as int] != added by {
        assert(all_bonds[b] == bonds[b]);
    }
    lemma_bonds_of_strangers(all_ids, all_bonds, added, 0, bonds.len());
    lemma_new_bonds(all_ids, all_kinds, all_bonds, added, size, new_bonds, bonds.len(), new_bonds.len());
    assert(new_bonds.take(new_bonds.len() as int) =~= new_bonds);
}

/// Particles of other molecules add nothing to the kinds of a molecule.
proof fn lemma_tail_of_strangers(
    ids: Seq<usize>,
    kinds: Seq<ParticleKind>,
    molecule: usize,
    from: nat,
    count: nat,
)
    requires
        from <= count <= ids.len(),
        forall|p: int| from <= p < count ==> ids[p] != molecule,
    ensures
        kinds_in(ids, kinds, molecule, count) == kinds_in(ids, kinds, molecule, from),
    decreases count,
{
    if count > from {
        lemma_tail_of_strangers(ids, kinds, molecule, from, (count - 1) as nat);
    }
}

/// The bonds of the molecule that was added last are its own bonds: each
/// end stands at its own place within the molecule.
proof fn lemma_new_bonds(
    ids: Seq<usize>,
    kinds: Seq<ParticleKind>,
    bonds: Seq<(usize, usize)>,
    added: usize,
    size: nat,
    new_bonds: Seq<(usize, usize)>,
    old_count: nat,
    more: nat,
)
    requires
        ids.len() == kinds.len(),
        size <= ids.len() <= usize::MAX,
        forall|p: int| 0 <= p < size ==> ids[p] != added,
        forall|p: int| size <= p < ids.len() ==> ids[p] == added,
        bonds_within(new_bonds, ids.len() - size),
        more <= new_bonds.len(),
        bonds.len() == old_count + new_bonds.len(),
        forall|b: int|
            0 <= b < new_bonds.len() ==> #[trigger] bonds[old_count + b] == shifted(
                new_bonds,
                size as int,
            )[b],
        bonds_in(ids, bonds, added, old_count) == Seq::<(usize, usize)>::empty(),
    ensures
        bonds_in(ids, bonds, added, old_count + more) == new_bonds.take(more as int),
    decreases more,
{
    if more == 0 {
        assert(new_bonds.take(0) =~= Seq::<(usize, usize)>::empty());
    } else {
        lemma_new_bonds(ids, kinds, bonds, added, size, new_bonds, old_count, (more - 1) as nat);
        let bond = new_bonds[more - 1];
        assert(bonds[old_count + (more - 1)] == shifted(new_bonds, size as int)[more - 1]);
        lemma_block(ids, kinds, added, size, bond.0 as nat);
        lemma_block(ids, kinds, added, size, bond.1 as nat);
        assert(new_bonds.take(more as int) =~= new_bonds.take(more - 1).push(bond));
    }
}

} // verus!
