//! A simulated system: a configuration, the interactions between its
//! particles, and the kinds of the particle names it has seen.

use vstd::prelude::*;
use vstd::string::*;
use crate::advisories::{
    Advisories,
    Advisory,
    AdvisoryView,
    Category,
    canonical_angle_names,
    canonical_dihedral_names,
    canonical_pair_names,
    recorded,
};
use crate::composition::{Composition, count_in, lemma_count_in_bound};
use crate::configuration::{Configuration, Particles, merged, shifted};
use crate::interactions::{
    canonical_angle,
    canonical_dihedral,
    canonical_pair,
    CoulombicPotential,
    GlobalPotential,
    Interactions,
    PairInteraction,
    PotentialId,
};
use crate::kinds::{
    KindRegistry,
    ParticleKind,
    distinct_names,
    lemma_kinds_are_stable,
    lemma_registered_grows,
    position_of,
    registered,
    with_name,
    lemma_with_name,
};
use crate::molecule::{Molecule, MoleculeHash, bonded, molecule_hash};
use crate::quantities::{Length, Temperature, UnitCell};

verus! {

/// The number of degrees of freedom simulated in a system.
#[derive(Clone, Copy, Debug, PartialEq, Eq, Structural)]
pub enum DegreesOfFreedom {
    /// All particles are simulated explicitly.
    Particles,
    /// All molecules are simulated as rigid bodies.
    Molecules,
    /// All particles are simulated explicitly, but this many degrees of
    /// freedom are frozen.
    Frozen(usize),
}

/// Why a setting of the system was not accepted.
#[derive(Clone, Copy, Debug, PartialEq, Eq, Structural)]
pub enum ConfigurationError {
    /// The cutoff of the potential is more than half of an edge of the cell.
    CutoffTooLarge,
    /// The temperature is below absolute zero.
    NegativeTemperature,
}

impl ConfigurationError {
    /// The text of the error.
    pub open spec fn text(&self) -> Seq<char> {
        match self {
            ConfigurationError::CutoffTooLarge =>
                "Can not add a potential with a cutoff bigger than half of the smallest cell length. Try increasing the cell size or decreasing the cutoff."@,
            ConfigurationError::NegativeTemperature => "External temperature must be positive"@,
        }
    }

    /// The text of the error.
    pub fn message(&self) -> (text: &'static str)
        ensures
            text@ == self.text(),
    {
        match self {
            ConfigurationError::CutoffTooLarge =>
                "Can not add a potential with a cutoff bigger than half of the smallest cell length. Try increasing the cell size or decreasing the cutoff.",
            ConfigurationError::NegativeTemperature => "External temperature must be positive",
        }
    }
}

/// The kind that the names `names` give to `name`.
pub open spec fn kind_at(names: Seq<Seq<char>>, name: Seq<char>) -> ParticleKind {
    ParticleKind(position_of(names, name)->0 as u32)
}

/// All the data of a simulated system.
pub struct System {
    configuration: Configuration,
    interactions: Interactions,
    kinds: KindRegistry,
    external_temperature: Option<Temperature>,
    /// The number of degrees of freedom simulated in the system.
    pub simulated_degrees_of_freedom: DegreesOfFreedom,
    /// The current simulation step.
    pub step: u64,
}

impl System {
    /// The configuration of the system.
    pub closed spec fn configuration_spec(&self) -> Configuration {
        self.configuration
    }

    /// The interactions of the system.
    pub closed spec fn interactions_spec(&self) -> Interactions {
        self.interactions
    }

    /// The particle names seen so far, each at the index that is its kind.
    pub closed spec fn kind_names(&self) -> Seq<Seq<char>> {
        self.kinds.names()
    }

    /// The temperature that is imposed on the system from outside, if any.
    pub closed spec fn external_temperature_spec(&self) -> Option<Temperature> {
        self.external_temperature
    }

    /// The degrees of freedom that are simulated.
    pub closed spec fn degrees_spec(&self) -> DegreesOfFreedom {
        self.simulated_degrees_of_freedom
    }

    /// The current simulation step.
    pub closed spec fn step_spec(&self) -> u64 {
        self.step
    }

    /// The names of the particles.
    pub open spec fn names(&self) -> Seq<Seq<char>> {
        self.configuration_spec().names()
    }

    /// The kinds of the particles.
    pub open spec fn kinds(&self) -> Seq<ParticleKind> {
        self.configuration_spec().kinds()
    }

    /// The configuration and the interactions are well formed, no name has
    /// two kinds, and every particle has the kind of its name.
    pub closed spec fn well_formed(&self) -> bool {
        &&& self.configuration.well_formed()
        &&& self.interactions.well_formed()
        &&& self.kinds.well_formed()
        &&& self.configuration.names().len() == self.configuration.kinds().len()
        &&& forall|i: int|
            0 <= i < self.configuration.names().len() ==> self.kinds.names().contains(
                #[trigger] self.configuration.names()[i],
            ) && self.configuration.kinds()[i] == kind_at(
                self.kinds.names(),
                self.configuration.names()[i],
            )
    }

    /// What `well_formed` means in terms of the system's contents.
    pub proof fn lemma_well_formed(&self)
        requires
            self.well_formed(),
        ensures
            self.configuration_spec().well_formed(),
            self.interactions_spec().well_formed(),
            distinct_names(self.kind_names()),
            self.kind_names().len() <= u32::MAX,
            self.names().len() == self.kinds().len(),
            forall|i: int|
                0 <= i < self.names().len() ==> self.kind_names().contains(#[trigger] self.names()[i])
                    && self.kinds()[i] == kind_at(self.kind_names(), self.names()[i]),
    {
        self.kinds.lemma_well_formed();
    }

    /// Two particles have the same kind exactly if they have the same name.
    pub proof fn lemma_same_name_same_kind(&self, i: int, j: int)
        requires
            self.well_formed(),
            0 <= i < self.names().len(),
            0 <= j < self.names().len(),
        ensures
            (self.kinds()[i] == self.kinds()[j]) == (self.names()[i] == self.names()[j]),
    {
        self.lemma_well_formed();
        let known = self.kind_names();
        let a = position_of(known, self.names()[i])->0;
        let b = position_of(known, self.names()[j])->0;
        assert(known.contains(self.names()[i]));
        assert(known.contains(self.names()[j]));
        assert(0 <= a < known.len() && known[a] == self.names()[i]);
        assert(0 <= b < known.len() && known[b] == self.names()[j]);
    }

    /// An empty system in an infinite cell.
    pub fn new() -> (system: System)
        ensures
            system.well_formed(),
            system.names().len() == 0,
            system.kind_names().len() == 0,
            system.configuration_spec().cell_spec().shape is Infinite,
            system.configuration_spec().molecule_count() == 0,
            system.configuration_spec().bonds().len() == 0,
            system.degrees_spec() == DegreesOfFreedom::Particles,
            system.external_temperature_spec() is None,
            system.step_spec() == 0,
            system.interactions_spec().is_empty(),
    {
        System::with_configuration(Configuration::new())
    }

    /// An empty system in the cell `cell`.
    pub fn with_cell(cell: UnitCell) -> (system: System)
        ensures
            system.well_formed(),
            system.names().len() == 0,
            system.kind_names().len() == 0,
            system.configuration_spec().cell_spec() == cell,
            system.configuration_spec().molecule_count() == 0,
            system.configuration_spec().bonds().len() == 0,
            system.degrees_spec() == DegreesOfFreedom::Particles,
            system.external_temperature_spec() is None,
            system.step_spec() == 0,
            system.interactions_spec().is_empty(),
    {
        let mut configuration = Configuration::new();
        configuration.set_cell(cell);
        System::with_configuration(configuration)
    }

    /// A system with the empty configuration `configuration` and no
    /// interactions.
    fn with_configuration(configuration: Configuration) -> (system: System)
        requires
            configuration.well_formed(),
            configuration.names().len() == 0,
        ensures
            system.well_formed(),
            system.configuration_spec() == configuration,
            system.kind_names().len() == 0,
            system.degrees_spec() == DegreesOfFreedom::Particles,
            system.external_temperature_spec() is None,
            system.step_spec() == 0,
            system.interactions_spec().is_empty(),
    {
        proof {
            configuration.lemma_well_formed();
        }
        System {
            configuration,
            kinds: KindRegistry::new(),
            interactions: Interactions::new(),
            external_temperature: None,
            step: 0,
            simulated_degrees_of_freedom: DegreesOfFreedom::Particles,
        }
    }

    /// The kind of `name`, which is registered first if it is new.
    fn get_kind(&mut self, name: &str) -> (kind: ParticleKind)
        requires
            old(self).well_formed(),
            old(self).kind_names().len() < u32::MAX,
        ensures
            final(self).well_formed(),
            final(self).configuration_spec() == old(self).configuration_spec(),
            final(self).interactions_spec() == old(self).interactions_spec(),
            final(self).degrees_spec() == old(self).degrees_spec(),
            final(self).step_spec() == old(self).step_spec(),
            final(self).external_temperature_spec() == old(self).external_temperature_spec(),
            final(self).kind_names() == with_name(old(self).kind_names(), name@),
            kind == kind_at(final(self).kind_names(), name@),
            final(self).kind_names().contains(name@),
    {
        let kind = self.kinds.get_kind(name);
        proof {
            let before = old(self).kinds.names();
            let after = self.kinds.names();
            self.kinds.lemma_well_formed();
            if before.contains(name@) {
                let c = choose|c: int| 0 <= c < before.len() && before[c] == name@;
                assert(position_of(before, name@) is Some);
            } else {
                assert(position_of(before, name@) is None);
                assert(after[before.len() as int] == name@);
            }
            assert forall|i: int| 0 <= i < self.configuration.names().len() implies after.contains(
                #[trigger] self.configuration.names()[i],
            ) && self.configuration.kinds()[i] == kind_at(after, self.configuration.names()[i]) by {
                let known = self.configuration.names()[i];
                assert(before.contains(known));
                lemma_kinds_are_stable(before, after, known);
                let c = choose|c: int| 0 <= c < before.len() && before[c] == known;
                assert(after[c] == known);
            }
        }
        kind
    }

    /// The number of particles.
    pub fn size(&self) -> (size: usize)
        ensures
            size == self.names().len(),
    {
        self.configuration.size()
    }

    /// The configuration of the system.
    pub fn configuration(&self) -> (configuration: &Configuration)
        ensures
            *configuration == self.configuration_spec(),
    {
        &self.configuration
    }

    /// The particles: their names and their kinds.
    pub fn particles(&self) -> (particles: &Particles)
        ensures
            particles.kind@ == self.kinds(),
            particles.name@.len() == self.names().len(),
            forall|i: int| 0 <= i < self.names().len() ==> particles.name@[i]@ == self.names()[i],
    {
        self.configuration.particles()
    }

    /// The hashes of the molecules, one for each molecule.
    pub fn molecules(&self) -> (hashes: Vec<MoleculeHash>)
        requires
            self.well_formed(),
        ensures
            hashes@ == self.configuration_spec().molecule_hashes(),
    {
        self.configuration.molecules()
    }

    /// The number of molecules.
    pub fn molecules_count(&self) -> (count: usize)
        ensures
            count == self.configuration_spec().molecule_count(),
    {
        self.configuration.molecules_count()
    }

    /// Bond the particles `i` and `j`; two molecules that the bond joins
    /// become one. Returns `false`, and changes nothing, unless `i` and `j`
    /// are two different particles that no bond joins yet.
    pub fn add_bond(&mut self, i: usize, j: usize) -> (added: bool)
        requires
            old(self).well_formed(),
        ensures
            final(self).well_formed(),
            final(self).interactions_spec() == old(self).interactions_spec(),
            final(self).kind_names() == old(self).kind_names(),
            final(self).degrees_spec() == old(self).degrees_spec(),
            final(self).step_spec() == old(self).step_spec(),
            final(self).external_temperature_spec() == old(self).external_temperature_spec(),
            final(self).names() == old(self).names(),
            final(self).kinds() == old(self).kinds(),
            final(self).configuration_spec().cell_spec() == old(self).configuration_spec().cell_spec(),
            added == (i < old(self).names().len() && j < old(self).names().len() && i != j
                && !bonded(old(self).configuration_spec().bonds(), i as int, j as int)),
            final(self).configuration_spec().bonds() == if added {
                old(self).configuration_spec().bonds().push((i, j))
            } else {
                old(self).configuration_spec().bonds()
            },
            ({
                let ids = old(self).configuration_spec().molecule_ids();
                let count = old(self).configuration_spec().molecule_count();
                if added && ids[i as int] != ids[j as int] {
                    let kept = if ids[i as int] < ids[j as int] {
                        ids[i as int]
                    } else {
                        ids[j as int]
                    };
                    let gone = if ids[i as int] < ids[j as int] {
                        ids[j as int]
                    } else {
                        ids[i as int]
                    };
                    final(self).configuration_spec().molecule_ids() == merged(ids, kept, gone)
                        && final(self).configuration_spec().molecule_count() == count - 1
                } else {
                    final(self).configuration_spec().molecule_ids() == ids && final(self).configuration_spec().molecule_count() == count
                }
            }),
    {
        self.configuration.add_bond(i, j)
    }

    /// The cell that holds the system.
    pub fn cell(&self) -> (cell: UnitCell)
        ensures
            cell == self.configuration_spec().cell_spec(),
    {
        self.configuration.cell()
    }

    /// Put the system into `cell`; nothing else changes. Potentials that
    /// were registered stay, whatever their cutoffs.
    pub fn set_cell(&mut self, cell: UnitCell)
        requires
            old(self).well_formed(),
        ensures
            final(self).well_formed(),
            final(self).configuration_spec().cell_spec() == cell,
            final(self).names() == old(self).names(),
            final(self).kinds() == old(self).kinds(),
            final(self).configuration_spec().molecule_ids() == old(self).configuration_spec().molecule_ids(),
            final(self).configuration_spec().molecule_count() == old(self).configuration_spec().molecule_count(),
            final(self).configuration_spec().bonds() == old(self).configuration_spec().bonds(),
            final(self).interactions_spec() == old(self).interactions_spec(),
            final(self).kind_names() == old(self).kind_names(),
            final(self).degrees_spec() == old(self).degrees_spec(),
            final(self).step_spec() == old(self).step_spec(),
            final(self).external_temperature_spec() == old(self).external_temperature_spec(),
    {
        self.configuration.set_cell(cell);
    }

    /// Use an external temperature for the system: with `Some(temperature)`
    /// the temperature of the system is `temperature`, whatever the
    /// velocities are; with `None` it follows from the velocities again.
    ///
    /// A temperature below zero is refused, and then nothing changes.
    pub fn simulated_temperature(&mut self, temperature: Option<Temperature>) -> (result: Result<
        (),
        ConfigurationError,
    >)
        ensures
            final(self).well_formed() == old(self).well_formed(),
            final(self).configuration_spec() == old(self).configuration_spec(),
            final(self).interactions_spec() == old(self).interactions_spec(),
            final(self).kind_names() == old(self).kind_names(),
            final(self).degrees_spec() == old(self).degrees_spec(),
            final(self).step_spec() == old(self).step_spec(),
            match result {
                Ok(_) => !(temperature matches Some(value) && value.0 < 0) && final(
                    self
                ).external_temperature_spec() == temperature,
                Err(error) => (temperature matches Some(value) && value.0 < 0) && error
                    == ConfigurationError::NegativeTemperature && final(
                    self
                ).external_temperature_spec() == old(self).external_temperature_spec(),
            },
    {
        if let Some(value) = temperature {
            if value.0 < 0 {
                return Err(ConfigurationError::NegativeTemperature);
            }
        }
        self.external_temperature = temperature;
        Ok(())
    }

    /// The temperature that is imposed on the system from outside, if any.
    pub fn external_temperature(&self) -> (temperature: Option<Temperature>)
        ensures
            temperature == self.external_temperature_spec(),
    {
        self.external_temperature
    }

    /// The number of kinds that the system has given out.
    pub fn kinds_count(&self) -> (count: usize)
        ensures
            count == self.kind_names().len(),
    {
        self.kinds.len()
    }

    /// The interactions of the system.
    pub fn interactions(&self) -> (interactions: &Interactions)
        ensures
            *interactions == self.interactions_spec(),
    {
        &self.interactions
    }

    /// Add a molecule to the system. Each of its particles gets the kind of
    /// its name, and a name that the system has not seen gets the next kind.
    pub fn add_molecule(&mut self, molecule: Molecule)
        requires
            old(self).well_formed(),
            molecule.well_formed(),
            old(self).kind_names().len() + molecule.names().len() <= u32::MAX,
        ensures
            final(self).well_formed(),
            final(self).kind_names() == registered(
                old(self).kind_names(),
                molecule.names(),
                molecule.names().len(),
            ),
            final(self).names() == old(self).names() + molecule.names(),
            final(self).kinds() == old(self).kinds() + Seq::new(
                molecule.names().len(),
                |k: int| kind_at(final(self).kind_names(), molecule.names()[k]),
            ),
            final(self).configuration_spec().molecule_ids() == old(self).configuration_spec().molecule_ids() + Seq::new(
                molecule.names().len(),
                |k: int| old(self).configuration_spec().molecule_count(),
            ),
            final(self).configuration_spec().molecule_hashes() == old(self).configuration_spec().molecule_hashes().push(
                MoleculeHash(
                    molecule_hash(
                        Seq::new(
                            molecule.names().len(),
                            |k: int| kind_at(final(self).kind_names(), molecule.names()[k]),
                        ),
                        molecule.bonds(),
                    ),
                ),
            ),
            final(self).configuration_spec().bonds() == old(self).configuration_spec().bonds()
                + shifted(molecule.bonds(), old(self).names().len() as int),
            final(self).configuration_spec().cell_spec() == old(self).configuration_spec().cell_spec(),
            final(self).interactions_spec() == old(self).interactions_spec(),
            final(self).degrees_spec() == old(self).degrees_spec(),
            final(self).step_spec() == old(self).step_spec(),
            final(self).external_temperature_spec() == old(self).external_temperature_spec(),
    {
        let mut molecule = molecule;
        let ghost given = molecule;
        let ghost added = molecule.names();
        proof {
            molecule.lemma_well_formed();
        }
        let size = molecule.size();
        let mut i: usize = 0;
        while i < size
            invariant
                i <= size,
                size == added.len(),
                self.well_formed(),
                molecule.well_formed(),
                molecule.names() == added,
                molecule.bonds() == given.bonds(),
                molecule.kinds().len() == added.len(),
                old(self).kind_names().len() + added.len() <= u32::MAX,
                self.configuration == old(self).configuration,
                self.interactions == old(self).interactions,
                self.simulated_degrees_of_freedom == old(self).simulated_degrees_of_freedom,
                self.external_temperature == old(self).external_temperature,
                self.step == old(self).step,
                self.kinds.names() == registered(old(self).kinds.names(), added, i as nat),
                forall|k: int|
                    0 <= k < i ==> #[trigger] molecule.kinds()[k] == kind_at(
                        self.kinds.names(),
                        added[k],
                    ),
            decreases size - i,
        {
            let ghost before = self.kinds.names();
            proof {
                lemma_registered_grows(old(self).kinds.names(), added, i as nat);
            }
            let kind = self.get_kind(molecule.name(i));
            molecule.set_kind(i, kind);
            proof {
                molecule.lemma_well_formed();
                let after = self.kinds.names();
                self.kinds.lemma_well_formed();
                assert(after == registered(old(self).kinds.names(), added, (i + 1) as nat));
                lemma_registered_grows(old(self).kinds.names(), added, i as nat);
                assert forall|k: int| 0 <= k < i + 1 implies #[trigger] molecule.kinds()[k]
                    == kind_at(after, added[k]) by {
                    if k < i {
                        assert(before.contains(added[k]));
                        lemma_kinds_are_stable(before, after, added[k]);
                    }
                }
            }
            i += 1;
        }
        proof {
            self.kinds.lemma_well_formed();
            self.configuration.lemma_well_formed();
            lemma_registered_grows(old(self).kinds.names(), added, added.len());
            assert(molecule.kinds() =~= Seq::new(
                added.len(),
                |k: int| kind_at(self.kinds.names(), added[k]),
            ));
        }
        self.configuration.add_molecule(&molecule);
        proof {
            self.configuration.lemma_well_formed();
            let names = self.kinds.names();
            assert forall|p: int| 0 <= p < self.configuration.names().len() implies names.contains(
                #[trigger] self.configuration.names()[p],
            ) && self.configuration.kinds()[p] == kind_at(names, self.configuration.names()[p]) by {
                let n = old(self).configuration.names().len();
                if p >= n {
                    assert(self.configuration.names()[p] == added[p - n]);
                    assert(self.configuration.kinds()[p] == molecule.kinds()[p - n]);
                }
            }
        }
    }

    /// The composition of the system: for each kind the number of its
    /// particles, and for each hash the number of molecules that have it.
    pub fn composition(&self) -> (composition: Composition)
        requires
            self.well_formed(),
        ensures
            composition.well_formed(),
            forall|kind: ParticleKind|
                composition.particles_spec(kind) == count_in(self.kinds(), self.kinds().len(), kind),
            forall|hash: MoleculeHash|
                composition.molecules_spec(hash) == count_in(
                    self.configuration_spec().molecule_hashes(),
                    self.configuration_spec().molecule_hashes().len(),
                    hash,
                ),
    {
        let mut composition = Composition::new();
        let particles = self.configuration.particles();
        let mut i: usize = 0;
        while i < particles.kind.len()
            invariant
                i <= particles.kind.len(),
                particles.kind@ == self.kinds(),
                composition.well_formed(),
                forall|kind: ParticleKind|
                    composition.particles_spec(kind) == count_in(self.kinds(), i as nat, kind),
                forall|hash: MoleculeHash| composition.molecules_spec(hash) == 0,
            decreases particles.kind.len() - i,
        {
            let kind = particles.kind[i];
            proof {
                lemma_count_in_bound(self.kinds(), i as nat, kind);
            }
            composition.add_particle(kind);
            i += 1;
        }
        let hashes = self.configuration.molecules();
        let mut m: usize = 0;
        while m < hashes.len()
            invariant
                m <= hashes.len(),
                hashes@ == self.configuration_spec().molecule_hashes(),
                composition.well_formed(),
                forall|kind: ParticleKind|
                    composition.particles_spec(kind) == count_in(
                        self.kinds(),
                        self.kinds().len(),
                        kind,
                    ),
                forall|hash: MoleculeHash|
                    composition.molecules_spec(hash) == count_in(hashes@, m as nat, hash),
            decreases hashes.len() - m,
        {
            let hash = hashes[m];
            proof {
                lemma_count_in_bound(hashes@, m as nat, hash);
            }
            composition.add_molecule(hash);
            m += 1;
        }
        composition
    }
}

/// The number of degrees of freedom of `size` particles in `molecules`
/// molecules.
pub open spec fn degrees_of_freedom_of(degrees: DegreesOfFreedom, size: int, molecules: int) -> int {
    match degrees {
        DegreesOfFreedom::Particles => 3 * size,
        DegreesOfFreedom::Frozen(frozen) => 3 * size - frozen,
        DegreesOfFreedom::Molecules => 3 * molecules,
    }
}

/// Registering and looking up potentials.
impl System {
    /// Add the pair potential `potential` between particles called `i` and
    /// `j`, for `names == (i, j)`.
    ///
    /// A cutoff that is more than half of an edge of the cell is refused,
    /// and then nothing changes.
    pub fn add_pair_potential(&mut self, names: (&str, &str), potential: PairInteraction) -> (result:
        Result<(), ConfigurationError>)
        requires
            old(self).well_formed(),
            old(self).kind_names().len() + 2 <= u32::MAX,
        ensures
            final(self).well_formed(),
            final(self).configuration_spec() == old(self).configuration_spec(),
            final(self).degrees_spec() == old(self).degrees_spec(),
            final(self).step_spec() == old(self).step_spec(),
            final(self).external_temperature_spec() == old(self).external_temperature_spec(),
            result is Err <==> !old(self).configuration_spec().cell_spec().admits_spec(potential.cutoff),
            result is Err ==> final(self).kind_names() == old(self).kind_names() && final(self).interactions_spec() == old(self).interactions_spec(),
            result is Ok ==> ({
                let known = with_name(with_name(old(self).kind_names(), names.0@), names.1@);
                let i = kind_at(known, names.0@);
                let j = kind_at(known, names.1@);
                let before = old(self).interactions_spec();
                let after = final(self).interactions_spec();
                &&& final(self).kind_names() == known
                &&& after.pairs_spec(i, j) == before.pairs_spec(i, j).push(potential)
                &&& forall|a: ParticleKind, b: ParticleKind|
                    canonical_pair(a, b) != canonical_pair(i, j) ==> #[trigger] after.pairs_spec(a, b)
                        == before.pairs_spec(a, b)
                &&& forall|length: Length| #[trigger]
                    after.has_cutoff(length) <==> (before.has_cutoff(length) || length
                        == potential.cutoff)
                &&& after.same_bonds(before)
                &&& after.same_angles(before)
                &&& after.same_dihedrals(before)
                &&& after.same_globals(before)
            }),
    {
        if !self.configuration.cell().admits(potential.cutoff) {
            return Err(ConfigurationError::CutoffTooLarge);
        }
        let kind_i = self.get_kind(names.0);
        proof {
            lemma_with_name(old(self).kind_names(), names.0@);
            lemma_with_name(self.kind_names(), names.1@);
            self.kinds.lemma_well_formed();
        }
        let kind_j = self.get_kind(names.1);
        self.interactions.add_pair((kind_i, kind_j), potential);
        Ok(())
    }

    /// Add the bond potential `potential` between particles called `i` and
    /// `j`, for `names == (i, j)`.
    pub fn add_bond_potential(&mut self, names: (&str, &str), potential: PotentialId)
        requires
            old(self).well_formed(),
            old(self).kind_names().len() + 2 <= u32::MAX,
        ensures
            final(self).well_formed(),
            final(self).configuration_spec() == old(self).configuration_spec(),
            final(self).degrees_spec() == old(self).degrees_spec(),
            final(self).step_spec() == old(self).step_spec(),
            final(self).external_temperature_spec() == old(self).external_temperature_spec(),
            ({
                let known = with_name(with_name(old(self).kind_names(), names.0@), names.1@);
                let i = kind_at(known, names.0@);
                let j = kind_at(known, names.1@);
                let before = old(self).interactions_spec();
                let after = final(self).interactions_spec();
                &&& final(self).kind_names() == known
                &&& after.pair_lists() == before.pair_lists()
                &&& after.bonds_spec(i, j) == before.bonds_spec(i, j).push(potential)
                &&& forall|a: ParticleKind, b: ParticleKind|
                    canonical_pair(a, b) != canonical_pair(i, j) ==> #[trigger] after.bonds_spec(a, b)
                        == before.bonds_spec(a, b)
                &&& after.same_pairs(before)
                &&& after.same_angles(before)
                &&& after.same_dihedrals(before)
                &&& after.same_globals(before)
            }),
    {
        let kind_i = self.get_kind(names.0);
        proof {
            lemma_with_name(old(self).kind_names(), names.0@);
            lemma_with_name(self.kind_names(), names.1@);
            self.kinds.lemma_well_formed();
        }
        let kind_j = self.get_kind(names.1);
        self.interactions.add_bond((kind_i, kind_j), potential);
    }

    /// Add the angle potential `potential` for particles called `i`, `j`
    /// and `k`, for `names == (i, j, k)`.
    pub fn add_angle_potential(&mut self, names: (&str, &str, &str), potential: PotentialId)
        requires
            old(self).well_formed(),
            old(self).kind_names().len() + 3 <= u32::MAX,
        ensures
            final(self).well_formed(),
            final(self).configuration_spec() == old(self).configuration_spec(),
            final(self).degrees_spec() == old(self).degrees_spec(),
            final(self).step_spec() == old(self).step_spec(),
            final(self).external_temperature_spec() == old(self).external_temperature_spec(),
            ({
                let known = with_name(
                    with_name(with_name(old(self).kind_names(), names.0@), names.1@),
                    names.2@,
                );
                let i = kind_at(known, names.0@);
                let j = kind_at(known, names.1@);
                let k = kind_at(known, names.2@);
                let before = old(self).interactions_spec();
                let after = final(self).interactions_spec();
                &&& final(self).kind_names() == known
                &&& after.pair_lists() == before.pair_lists()
                &&& after.angles_spec(i, j, k) == before.angles_spec(i, j, k).push(potential)
                &&& forall|a: ParticleKind, b: ParticleKind, c: ParticleKind|
                    canonical_angle(a, b, c) != canonical_angle(i, j, k)
                        ==> #[trigger] after.angles_spec(a, b, c) == before.angles_spec(a, b, c)
                &&& after.same_pairs(before)
                &&& after.same_bonds(before)
                &&& after.same_dihedrals(before)
                &&& after.same_globals(before)
            }),
    {
        let kind_i = self.get_kind(names.0);
        proof {
            lemma_with_name(old(self).kind_names(), names.0@);
            lemma_with_name(self.kind_names(), names.1@);
            self.kinds.lemma_well_formed();
        }
        let kind_j = self.get_kind(names.1);
        proof {
            lemma_with_name(self.kind_names(), names.2@);
            self.kinds.lemma_well_formed();
        }
        let kind_k = self.get_kind(names.2);
        self.interactions.add_angle((kind_i, kind_j, kind_k), potential);
    }

    /// Add the dihedral potential `potential` for particles called `i`,
    /// `j`, `k` and `m`, for `names == (i, j, k, m)`.
    pub fn add_dihedral_potential(&mut self, names: (&str, &str, &str, &str), potential: PotentialId)
        requires
            old(self).well_formed(),
            old(self).kind_names().len() + 4 <= u32::MAX,
        ensures
            final(self).well_formed(),
            final(self).configuration_spec() == old(self).configuration_spec(),
            final(self).degrees_spec() == old(self).degrees_spec(),
            final(self).step_spec() == old(self).step_spec(),
            final(self).external_temperature_spec() == old(self).external_temperature_spec(),
            ({
                let known = with_name(
                    with_name(
                        with_name(with_name(old(self).kind_names(), names.0@), names.1@),
                        names.2@,
                    ),
                    names.3@,
                );
                let i = kind_at(known, names.0@);
                let j = kind_at(known, names.1@);
                let k = kind_at(known, names.2@);
                let m = kind_at(known, names.3@);
                let before = old(self).interactions_spec();
                let after = final(self).interactions_spec();
                &&& final(self).kind_names() == known
                &&& after.pair_lists() == before.pair_lists()
                &&& after.dihedrals_spec(i, j, k, m) == before.dihedrals_spec(i, j, k, m).push(
                    potential,
                )
                &&& forall|a: ParticleKind, b: ParticleKind, c: ParticleKind, d: ParticleKind|
                    canonical_dihedral(a, b, c, d) != canonical_dihedral(i, j, k, m)
                        ==> #[trigger] after.dihedrals_spec(a, b, c, d) == before.dihedrals_spec(
                        a,
                        b,
                        c,
                        d,
                    )
                &&& after.same_pairs(before)
                &&& after.same_bonds(before)
                &&& after.same_angles(before)
                &&& after.same_globals(before)
            }),
    {
        let kind_i = self.get_kind(names.0);
        proof {
            lemma_with_name(old(self).kind_names(), names.0@);
            lemma_with_name(self.kind_names(), names.1@);
            self.kinds.lemma_well_formed();
        }
        let kind_j = self.get_kind(names.1);
        proof {
            lemma_with_name(self.kind_names(), names.2@);
            self.kinds.lemma_well_formed();
        }
        let kind_k = self.get_kind(names.2);
        proof {
            lemma_with_name(self.kind_names(), names.3@);
            self.kinds.lemma_well_formed();
        }
        let kind_m = self.get_kind(names.3);
        self.interactions.add_dihedral((kind_i, kind_j, kind_k, kind_m), potential);
    }

    /// Make `potential` the coulombic potential of the system.
    ///
    /// A finite cutoff that is more than half of an edge of the cell is
    /// refused, and then nothing changes.
    pub fn set_coulomb_potential(&mut self, potential: CoulombicPotential) -> (result: Result<
        (),
        ConfigurationError,
    >)
        requires
            old(self).well_formed(),
        ensures
            final(self).well_formed(),
            final(self).configuration_spec() == old(self).configuration_spec(),
            final(self).kind_names() == old(self).kind_names(),
            final(self).degrees_spec() == old(self).degrees_spec(),
            final(self).step_spec() == old(self).step_spec(),
            final(self).external_temperature_spec() == old(self).external_temperature_spec(),
            result is Err <==> (potential.cutoff matches Some(cutoff) && !old(self).configuration_spec().cell_spec().admits_spec(cutoff)),
            result is Err ==> final(self).interactions_spec() == old(self).interactions_spec(),
            result is Ok ==> ({
                let before = old(self).interactions_spec();
                let after = final(self).interactions_spec();
                &&& after.coulomb_spec() == Some(potential)
                &&& after.globals_spec() == before.globals_spec()
                &&& after.pair_lists() == before.pair_lists()
                &&& after.same_pairs(before)
                &&& after.same_bonds(before)
                &&& after.same_angles(before)
                &&& after.same_dihedrals(before)
            }),
    {
        if let Some(cutoff) = potential.cutoff {
            if !self.configuration.cell().admits(cutoff) {
                return Err(ConfigurationError::CutoffTooLarge);
            }
        }
        self.interactions.set_coulomb(potential);
        Ok(())
    }

    /// Add the global potential `potential`.
    pub fn add_global_potential(&mut self, potential: GlobalPotential)
        requires
            old(self).well_formed(),
        ensures
            final(self).well_formed(),
            final(self).configuration_spec() == old(self).configuration_spec(),
            final(self).kind_names() == old(self).kind_names(),
            final(self).degrees_spec() == old(self).degrees_spec(),
            final(self).step_spec() == old(self).step_spec(),
            final(self).external_temperature_spec() == old(self).external_temperature_spec(),
            ({
                let before = old(self).interactions_spec();
                let after = final(self).interactions_spec();
                &&& after.globals_spec() == before.globals_spec().push(potential)
                &&& after.coulomb_spec() == before.coulomb_spec()
                &&& after.pair_lists() == before.pair_lists()
                &&& after.same_pairs(before)
                &&& after.same_bonds(before)
                &&& after.same_angles(before)
                &&& after.same_dihedrals(before)
            }),
    {
        self.interactions.add_global(potential);
    }

    /// The pair potentials that act between the particles `i` and `j`.
    ///
    /// If there are none, this is recorded in `advisories`, once for each
    /// pair of names in either order.
    pub fn pair_potentials<'a>(&'a self, i: usize, j: usize, advisories: &mut Advisories) -> (list:
        &'a [PairInteraction])
        requires
            self.well_formed(),
            old(advisories).well_formed(),
            i < self.names().len(),
            j < self.names().len(),
        ensures
            list@ == self.interactions_spec().pairs_spec(self.kinds()[i as int], self.kinds()[j as int]),
            final(advisories).well_formed(),
            final(advisories)@ == if list@.len() == 0 {
                recorded(
                    old(advisories)@,
                    AdvisoryView {
                        category: Category::Pair,
                        names: canonical_pair_names(self.names()[i as int], self.names()[j as int]),
                    },
                )
            } else {
                old(advisories)@
            },
    {
        proof {
            self.configuration.lemma_well_formed();
        }
        let particles = self.configuration.particles();
        let pairs = self.interactions.pairs((particles.kind[i], particles.kind[j]));
        if pairs.len() == 0 {
            let _ = advisories.record(
                Advisory::missing_pair(particles.name[i].as_str(), particles.name[j].as_str()),
            );
        }
        pairs
    }

    /// The bond potentials that act between the particles `i` and `j`.
    ///
    /// If there are none, this is recorded in `advisories`, once for each
    /// pair of names in either order.
    pub fn bond_potentials<'a>(&'a self, i: usize, j: usize, advisories: &mut Advisories) -> (list:
        &'a [PotentialId])
        requires
            self.well_formed(),
            old(advisories).well_formed(),
            i < self.names().len(),
            j < self.names().len(),
        ensures
            list@ == self.interactions_spec().bonds_spec(self.kinds()[i as int], self.kinds()[j as int]),
            final(advisories).well_formed(),
            final(advisories)@ == if list@.len() == 0 {
                recorded(
                    old(advisories)@,
                    AdvisoryView {
                        category: Category::Bond,
                        names: canonical_pair_names(self.names()[i as int], self.names()[j as int]),
                    },
                )
            } else {
                old(advisories)@
            },
    {
        proof {
            self.configuration.lemma_well_formed();
        }
        let particles = self.configuration.particles();
        let bonds = self.interactions.bonds((particles.kind[i], particles.kind[j]));
        if bonds.len() == 0 {
            let _ = advisories.record(
                Advisory::missing_bond(particles.name[i].as_str(), particles.name[j].as_str()),
            );
        }
        bonds
    }

    /// The angle potentials that act on the particles `i`, `j` and `k`.
    ///
    /// If there are none, this is recorded in `advisories`, once for each
    /// triple of names and its reverse.
    pub fn angle_potentials<'a>(
        &'a self,
        i: usize,
        j: usize,
        k: usize,
        advisories: &mut Advisories,
    ) -> (list: &'a [PotentialId])
        requires
            self.well_formed(),
            old(advisories).well_formed(),
            i < self.names().len(),
            j < self.names().len(),
            k < self.names().len(),
        ensures
            list@ == self.interactions_spec().angles_spec(
                self.kinds()[i as int],
                self.kinds()[j as int],
                self.kinds()[k as int],
            ),
            final(advisories).well_formed(),
            final(advisories)@ == if list@.len() == 0 {
                recorded(
                    old(advisories)@,
                    AdvisoryView {
                        category: Category::Angle,
                        names: canonical_angle_names(
                            self.names()[i as int],
                            self.names()[j as int],
                            self.names()[k as int],
                        ),
                    },
                )
            } else {
                old(advisories)@
            },
    {
        proof {
            self.configuration.lemma_well_formed();
        }
        let particles = self.configuration.particles();
        let angles = self.interactions.angles(
            (particles.kind[i], particles.kind[j], particles.kind[k]),
        );
        if angles.len() == 0 {
            let _ = advisories.record(
                Advisory::missing_angle(
                    particles.name[i].as_str(),
                    particles.name[j].as_str(),
                    particles.name[k].as_str(),
                ),
            );
        }
        angles
    }

    /// The dihedral potentials that act on the particles `i`, `j`, `k` and
    /// `m`.
    ///
    /// If there are none, this is recorded in `advisories`, once for each
    /// quadruple of names and its reverse.
    pub fn dihedral_potentials<'a>(
        &'a self,
        i: usize,
        j: usize,
        k: usize,
        m: usize,
        advisories: &mut Advisories,
    ) -> (list: &'a [PotentialId])
        requires
            self.well_formed(),
            old(advisories).well_formed(),
            i < self.names().len(),
            j < self.names().len(),
            k < self.names().len(),
            m < self.names().len(),
        ensures
            list@ == self.interactions_spec().dihedrals_spec(
                self.kinds()[i as int],
                self.kinds()[j as int],
                self.kinds()[k as int],
                self.kinds()[m as int],
            ),
            final(advisories).well_formed(),
            final(advisories)@ == if list@.len() == 0 {
                recorded(
                    old(advisories)@,
                    AdvisoryView {
                        category: Category::Dihedral,
                        names: canonical_dihedral_names(
                            self.names()[i as int],
                            self.names()[j as int],
                            self.names()[k as int],
                            self.names()[m as int],
                        ),
                    },
                )
            } else {
                old(advisories)@
            },
    {
        proof {
            self.configuration.lemma_well_formed();
        }
        let particles = self.configuration.particles();
        let dihedrals = self.interactions.dihedrals(
            (particles.kind[i], particles.kind[j], particles.kind[k], particles.kind[m]),
        );
        if dihedrals.len() == 0 {
            let _ = advisories.record(
                Advisory::missing_dihedral(
                    particles.name[i].as_str(),
                    particles.name[j].as_str(),
                    particles.name[k].as_str(),
                    particles.name[m].as_str(),
                ),
            );
        }
        dihedrals
    }

    /// The coulombic potential of the system, if one is set.
    pub fn coulomb_potential(&self) -> (potential: Option<CoulombicPotential>)
        ensures
            potential == self.interactions_spec().coulomb_spec(),
    {
        self.interactions.coulomb()
    }

    /// The global potentials of the system.
    pub fn global_potentials(&self) -> (list: &[GlobalPotential])
        ensures
            list@ == self.interactions_spec().globals_spec(),
    {
        self.interactions.globals()
    }

    /// The maximum cutoff of the coulombic, global and pair potentials:
    /// `None` if one of them has no finite range, or if none has a cutoff.
    pub fn maximum_cutoff(&self) -> (maximum: Option<Length>)
        requires
            self.well_formed(),
        ensures
            self.interactions_spec().is_maximum_cutoff(maximum),
    {
        self.interactions.maximum_cutoff()
    }
}

/// What a system knows of itself without any physics.
impl System {
    /// The number of degrees of freedom of the system: three for each
    /// particle, less the frozen ones, or three for each rigid molecule.
    pub fn degrees_of_freedom(&self) -> (degrees: usize)
        requires
            match self.degrees_spec() {
                DegreesOfFreedom::Particles => 3 * self.names().len() <= usize::MAX,
                DegreesOfFreedom::Frozen(frozen) => frozen <= 3 * self.names().len() <= usize::MAX,
                DegreesOfFreedom::Molecules => 3 * self.configuration_spec().molecule_count()
                    <= usize::MAX,
            },
        ensures
            degrees == degrees_of_freedom_of(
                self.degrees_spec(),
                self.names().len() as int,
                self.configuration_spec().molecule_count() as int,
            ),
    {
        match self.simulated_degrees_of_freedom {
            DegreesOfFreedom::Particles => 3 * self.size(),
            DegreesOfFreedom::Frozen(frozen) => 3 * self.size() - frozen,
            DegreesOfFreedom::Molecules => 3 * self.molecules_count(),
        }
    }
}

/// Looking up the potentials of a tuple of particles a second time records
/// nothing new: after the first lookup the advisory for the tuple is in the
/// log, and a log holds no advisory twice.
pub proof fn lemma_one_advisory_for_each_tuple(log: Seq<AdvisoryView>, advisory: AdvisoryView)
    requires
        crate::advisories::without_repeats(log),
    ensures
        recorded(recorded(log, advisory), advisory) == recorded(log, advisory),
        count_in(recorded(log, advisory), recorded(log, advisory).len(), advisory) == 1,
{
    crate::advisories::lemma_recorded_once(log, advisory);
    let after = recorded(log, advisory);
    let at = choose|at: int| 0 <= at < after.len() && after[at] == advisory;
    lemma_count_of_one(after, after.len(), advisory, at);
}

/// In a sequence without repeats, an item that stands at `at` occurs once
/// among the first `count` items if `at` is among them, and else not.
proof fn lemma_count_of_one(log: Seq<AdvisoryView>, count: nat, advisory: AdvisoryView, at: int)
    requires
        crate::advisories::without_repeats(log),
        0 <= at < log.len(),
        log[at] == advisory,
        count <= log.len(),
    ensures
        count_in(log, count, advisory) == if at < count {
            1nat
        } else {
            0nat
        },
    decreases count,
{
    if count > 0 {
        lemma_count_of_one(log, (count - 1) as nat, advisory, at);
        if count - 1 != at {
            if count - 1 < at {
                assert(log[count - 1] != log[at]);
            } else {
                assert(log[at] != log[count - 1]);
            }
        }
    }
}

} // verus!
