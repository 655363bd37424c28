//! The energy cache: the energies of the current configuration, and the
//! terms that a trial move makes it compute again.
//!
//! The cache does not compute energies. It keeps what the caller computed,
//! says which terms a move can change, keeps the energies proposed for the
//! moved configuration apart from the current ones, and makes them current
//! when the move is accepted. Each change of the current energies starts a
//! new generation, and energies that were computed against an earlier
//! generation are not taken.

use vstd::prelude::*;
use crate::configuration::Configuration;
use crate::moves::{
    agree_within_classes,
    bonds_to_compute,
    changed_bonds,
    changed_pairs,
    lemma_no_bond_changes_within_classes,
    classes_of_move,
    classes_of_moved,
    lemma_changed_pairs,
    lemma_cost_is_change_over_changed_pairs,
    marks_of,
    pairs_to_compute,
    sum_over,
    total_energy,
};
use crate::system::System;

verus! {

/// Why the cache refused a query.
#[derive(Clone, Copy, Debug, PartialEq, Eq, Structural)]
pub enum CacheError {
    /// The cache holds no energies yet.
    NotInitialized,
    /// The system does not have the number of particles that the cache was
    /// initialized with.
    SizeChanged,
    /// A particle that is said to move is not in the system.
    NoSuchParticle,
    /// The energies were computed against energies that are no longer the
    /// current ones.
    Stale,
}

/// What a move makes the caller compute again.
pub struct MoveTerms {
    /// The class of each particle: a term whose particles are all of one
    /// class keeps its energy.
    pub classes: Vec<usize>,
    /// The pairs of particles from different classes, each once, the
    /// smaller index first.
    pub pairs: Vec<(usize, usize)>,
    /// The bonds between particles from different classes.
    pub bonds: Vec<(usize, usize)>,
    /// The generation of the energies that the move is tried against.
    pub generation: u64,
}

/// The generation after `generation`.
pub open spec fn next_generation(generation: u64) -> u64 {
    if generation < u64::MAX {
        (generation + 1) as u64
    } else {
        0
    }
}

/// The energy of a configuration, in its three parts.
pub struct Energies<E> {
    /// The energy of all pair interactions.
    pub pairs: E,
    /// The energy of all bonds, angles and dihedrals.
    pub bonded: E,
    /// The energy of the coulombic and global potentials.
    pub global: E,
}

/// The energies of a system, kept up to date move by move.
pub struct EnergyCache<E> {
    size: usize,
    generation: u64,
    current: Option<Energies<E>>,
    proposed: Option<Energies<E>>,
}

impl<E> EnergyCache<E> {
    /// The energies of the current configuration: `None` before `init`.
    pub closed spec fn current(&self) -> Option<Energies<E>> {
        self.current
    }

    /// The energies of the configuration after the move under trial, if
    /// there is one.
    pub closed spec fn proposed(&self) -> Option<Energies<E>> {
        self.proposed
    }

    /// The number of particles that the energies were computed for.
    pub closed spec fn size_spec(&self) -> usize {
        self.size
    }

    /// The generation of the current energies.
    pub closed spec fn generation_spec(&self) -> u64 {
        self.generation
    }

    /// Energies are proposed only against current ones.
    pub open spec fn well_formed(&self) -> bool {
        self.proposed() is Some ==> self.current() is Some
    }

    /// What a query is refused for, if it is: first for a cache without
    /// energies, then for a system of another size, then for a moved
    /// particle that the system does not have.
    pub open spec fn refusal(&self, size: int, moved: Seq<usize>) -> Option<CacheError> {
        if self.current() is None {
            Some(CacheError::NotInitialized)
        } else if size != self.size_spec() {
            Some(CacheError::SizeChanged)
        } else if exists|k: int| 0 <= k < moved.len() && moved[k] >= size {
            Some(CacheError::NoSuchParticle)
        } else {
            None
        }
    }

    /// A cache without energies.
    pub fn new() -> (cache: EnergyCache<E>)
        ensures
            cache.current() is None,
            cache.proposed() is None,
            cache.generation_spec() == 0,
            cache.well_formed(),
    {
        EnergyCache { size: 0, generation: 0, current: None, proposed: None }
    }

    /// Take `energies` as the energies of `system` as it is now. A move
    /// under trial is forgotten, and a new generation starts.
    pub fn init(&mut self, system: &System, energies: Energies<E>)
        ensures
            final(self).current() == Some(energies),
            final(self).proposed() is None,
            final(self).size_spec() == system.names().len(),
            final(self).generation_spec() == next_generation(old(self).generation_spec()),
            final(self).well_formed(),
    {
        self.size = system.size();
        self.generation = self.generation.wrapping_add(1);
        self.current = Some(energies);
        self.proposed = None;
    }

    /// The generation of the current energies.
    pub fn generation(&self) -> (generation: u64)
        ensures
            generation == self.generation_spec(),
    {
        self.generation
    }

    /// Whether the cache holds energies.
    pub fn is_initialized(&self) -> (initialized: bool)
        ensures
            initialized == (self.current() is Some),
    {
        self.current.is_some()
    }

    /// The energies of the current configuration.
    pub fn energies(&self) -> (energies: Option<&Energies<E>>)
        ensures
            match energies {
                Some(current) => self.current() == Some(*current),
                None => self.current() is None,
            },
    {
        self.current.as_ref()
    }

    /// The terms that have to be computed again to know what it costs to
    /// move the particles `moved`, and those alone, to new positions: every
    /// pair and every bond with at least one moved particle, each once.
    ///
    /// The cache stays as it is.
    pub fn move_particles_cost(&self, system: &System, moved: &[usize]) -> (result: Result<
        MoveTerms,
        CacheError,
    >)
        requires
            system.well_formed(),
            system.names().len() < usize::MAX,
        ensures
            match result {
                Ok(terms) => {
                    let classes = classes_of_moved(marks_of(system.names().len() as int, moved@));
                    &&& self.refusal(system.names().len() as int, moved@) is None
                    &&& terms.generation == self.generation_spec()
                    &&& terms.classes@ == classes
                    &&& terms.pairs@ == changed_pairs(classes)
                    &&& terms.bonds@ == changed_bonds(
                        classes,
                        system.configuration_spec().bonds(),
                        system.configuration_spec().bonds().len(),
                    )
                },
                Err(error) => self.refusal(system.names().len() as int, moved@) == Some(error),
            },
    {
        if self.current.is_none() {
            return Err(CacheError::NotInitialized);
        }
        if system.size() != self.size {
            return Err(CacheError::SizeChanged);
        }
        proof {
            system.lemma_well_formed();
            system.configuration_spec().lemma_well_formed();
        }
        match classes_of_move(system.size(), moved) {
            Some(classes) => {
                let pairs = pairs_to_compute(&classes);
                let bonds = bonds_to_compute(&classes, system.configuration().bond_list());
                Ok(MoveTerms { classes, pairs, bonds, generation: self.generation })
            },
            None => Err(CacheError::NoSuchParticle),
        }
    }

    /// The terms that have to be computed again to know what it costs to
    /// move every molecule as a rigid body: every pair of particles from
    /// two different molecules, each once. No pair within a molecule is
    /// among them, and no bond.
    ///
    /// The cache stays as it is.
    pub fn move_all_rigid_molecules_cost(&self, system: &System) -> (result: Result<
        MoveTerms,
        CacheError,
    >)
        requires
            system.well_formed(),
        ensures
            match result {
                Ok(terms) => {
                    &&& self.refusal(system.names().len() as int, Seq::empty()) is None
                    &&& terms.generation == self.generation_spec()
                    &&& terms.classes@ == system.configuration_spec().molecule_ids()
                    &&& terms.pairs@ == changed_pairs(system.configuration_spec().molecule_ids())
                    &&& terms.bonds@ == Seq::<(usize, usize)>::empty()
                },
                Err(error) => self.refusal(system.names().len() as int, Seq::empty()) == Some(error),
            },
    {
        if self.current.is_none() {
            return Err(CacheError::NotInitialized);
        }
        if system.size() != self.size {
            return Err(CacheError::SizeChanged);
        }
        proof {
            system.lemma_well_formed();
            system.configuration_spec().lemma_well_formed();
            lemma_no_bond_changes_within_classes(
                system.configuration_spec().molecule_ids(),
                system.configuration_spec().bonds(),
                system.configuration_spec().bonds().len(),
            );
        }
        let classes = system.configuration().molecule_numbers().clone();
        let pairs = pairs_to_compute(&classes);
        Ok(MoveTerms { classes, pairs, bonds: Vec::new(), generation: self.generation })
    }

    /// Keep `energies` as the energies after the move under trial, which
    /// was tried against the energies of `generation`. The current energies
    /// stay as they are.
    ///
    /// Energies of another generation than the current one are refused:
    /// they were computed against energies that have changed since.
    pub fn propose(&mut self, generation: u64, energies: Energies<E>) -> (result: Result<
        (),
        CacheError,
    >)
        requires
            old(self).well_formed(),
        ensures
            final(self).well_formed(),
            final(self).current() == old(self).current(),
            final(self).size_spec() == old(self).size_spec(),
            final(self).generation_spec() == old(self).generation_spec(),
            match result {
                Ok(_) => old(self).current() is Some && generation == old(self).generation_spec()
                    && final(self).proposed() == Some(energies),
                Err(error) => final(self).proposed() == old(self).proposed() && if old(
                    self
                ).current() is None {
                    error == CacheError::NotInitialized
                } else {
                    generation != old(self).generation_spec() && error == CacheError::Stale
                },
            },
    {
        if self.current.is_none() {
            return Err(CacheError::NotInitialized);
        }
        if generation != self.generation {
            return Err(CacheError::Stale);
        }
        self.proposed = Some(energies);
        Ok(())
    }

    /// The move under trial was accepted: the proposed energies become the
    /// current ones, and a new generation starts. Without a move under
    /// trial nothing changes.
    pub fn update(&mut self)
        requires
            old(self).well_formed(),
        ensures
            final(self).well_formed(),
            final(self).proposed() is None,
            final(self).size_spec() == old(self).size_spec(),
            final(self).current() == match old(self).proposed() {
                Some(energies) => Some(energies),
                None => old(self).current(),
            },
            final(self).generation_spec() == if old(self).proposed() is Some {
                next_generation(old(self).generation_spec())
            } else {
                old(self).generation_spec()
            },
    {
        let proposed = self.proposed.take();
        if proposed.is_some() {
            self.current = proposed;
            self.generation = self.generation.wrapping_add(1);
        }
    }

    /// The move under trial was rejected: the proposed energies are
    /// dropped, and the current ones stay.
    pub fn unused(&mut self)
        ensures
            final(self).proposed() is None,
            final(self).current() == old(self).current(),
            final(self).size_spec() == old(self).size_spec(),
            final(self).generation_spec() == old(self).generation_spec(),
            final(self).well_formed(),
    {
        self.proposed = None;
    }
}

/// The cost of moving some particles is the change of energy over the
/// pairs that `move_particles_cost` names.
///
/// Let the energy of a pair depend on the two particles and on where they
/// are, and let every particle that is not among `moved` stay where it is.
/// Then the pair energy of the trial positions less that of the current
/// positions is the sum, over the named pairs, of the energy of the pair
/// at the trial positions less its energy at the current ones. Energies
/// are taken as exact numbers.
pub proof fn lemma_cost_of_moved_particles<P>(
    positions: Seq<P>,
    trial: Seq<P>,
    moved: Seq<usize>,
    energy: spec_fn(int, int, P, P) -> int,
)
    requires
        positions.len() == trial.len(),
        positions.len() < usize::MAX,
        forall|p: int|
            0 <= p < positions.len() && !moved.contains(p as usize) ==> trial[p] == positions[p],
    ensures
        ({
            let size = positions.len() as int;
            let before = |i: int, j: int| energy(i, j, positions[i], positions[j]);
            let after = |i: int, j: int| energy(i, j, trial[i], trial[j]);
            let pairs = changed_pairs(classes_of_moved(marks_of(size, moved)));
            total_energy(after, size) - total_energy(before, size) == sum_over(pairs, after)
                - sum_over(pairs, before)
        }),
{
    let size = positions.len() as int;
    let before = |i: int, j: int| energy(i, j, positions[i], positions[j]);
    let after = |i: int, j: int| energy(i, j, trial[i], trial[j]);
    let classes = classes_of_moved(marks_of(size, moved));
    assert forall|i: int, j: int|
        0 <= i < j < classes.len() && classes[i] == classes[j] implies #[trigger] before(i, j)
        == after(i, j) by {
        assert(!marks_of(size, moved)[i]);
        assert(!marks_of(size, moved)[j]);
    }
    assert(agree_within_classes(classes, before, after));
    lemma_cost_is_change_over_changed_pairs(classes, before, after);
}

/// The cost of moving all molecules as rigid bodies is the change of
/// energy over the pairs that `move_all_rigid_molecules_cost` names, and
/// none of these pairs lies within a molecule.
///
/// Let the energy of a pair depend on the two particles and on where they
/// are, and let the move keep the energy of every pair within a molecule,
/// as a rigid move does. Then the pair energy of the trial positions less
/// that of the current positions is the sum, over the named pairs, of the
/// energy of the pair at the trial positions less its energy at the
/// current ones. Energies are taken as exact numbers.
pub proof fn lemma_cost_of_rigid_molecules<P>(
    molecule_ids: Seq<usize>,
    positions: Seq<P>,
    trial: Seq<P>,
    energy: spec_fn(int, int, P, P) -> int,
)
    requires
        molecule_ids.len() == positions.len(),
        positions.len() == trial.len(),
        positions.len() <= usize::MAX,
        forall|i: int, j: int|
            0 <= i < j < positions.len() && molecule_ids[i] == molecule_ids[j] ==> #[trigger] energy(
                i,
                j,
                trial[i],
                trial[j],
            ) == energy(i, j, positions[i], positions[j]),
    ensures
        ({
            let size = positions.len() as int;
            let before = |i: int, j: int| energy(i, j, positions[i], positions[j]);
            let after = |i: int, j: int| energy(i, j, trial[i], trial[j]);
            let pairs = changed_pairs(molecule_ids);
            &&& total_energy(after, size) - total_energy(before, size) == sum_over(pairs, after)
                - sum_over(pairs, before)
            &&& forall|pair: (usize, usize)|
                pairs.contains(pair) ==> molecule_ids[pair.0 as int] != molecule_ids[pair.1 as int]
        }),
{
    let before = |i: int, j: int| energy(i, j, positions[i], positions[j]);
    let after = |i: int, j: int| energy(i, j, trial[i], trial[j]);
    assert forall|i: int, j: int|
        0 <= i < j < molecule_ids.len() && molecule_ids[i] == molecule_ids[j] implies #[trigger] before(
        i,
        j,
    ) == after(i, j) by {
        assert(energy(i, j, trial[i], trial[j]) == energy(i, j, positions[i], positions[j]));
    }
    assert(agree_within_classes(molecule_ids, before, after));
    lemma_cost_is_change_over_changed_pairs(molecule_ids, before, after);
    lemma_changed_pairs(molecule_ids);
}

/// No bond is among the pairs that a rigid move of all molecules changes:
/// every bond lies within one molecule.
pub proof fn lemma_rigid_move_keeps_bonds(configuration: Configuration)
    requires
        configuration.well_formed(),
        configuration.names().len() <= usize::MAX,
    ensures
        forall|b: int|
            0 <= b < configuration.bonds().len() ==> !changed_pairs(
                configuration.molecule_ids(),
            ).contains(#[trigger] configuration.bonds()[b]) && !changed_pairs(
                configuration.molecule_ids(),
            ).contains((configuration.bonds()[b].1, configuration.bonds()[b].0)),
{
    configuration.lemma_well_formed();
    lemma_changed_pairs(configuration.molecule_ids());
}

} // verus!
