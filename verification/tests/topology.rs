use lumol_core::advisories::Advisories;
use lumol_core::cache::{CacheError, Energies, EnergyCache};
use lumol_core::configuration::Configuration;
use lumol_core::evaluator::{CoulombTerm, PairTerm};
use lumol_core::interactions::{
    sort_angle, sort_dihedral, sort_pair, CoulombicPotential, CoulombicSolver, Interactions,
    PairInteraction, PotentialId,
};
use lumol_core::kinds::{KindRegistry, ParticleKind};
use lumol_core::molecule::{Molecule, MoleculeHash, Particle};
use lumol_core::moves::{bonds_to_compute, changes, classes_of_move, pairs_to_compute};
use lumol_core::names::{bytes_before, bytes_equal, name_before, same_name};
use lumol_core::quantities::{Length, Scaling, UnitCell};
use lumol_core::restrictions::{BondPath, PairRestriction, RestrictionInfo};
use lumol_core::system::System;

fn butane() -> Molecule {
    // C0 - C1 - C2 - C3, and a hydrogen on C0
    let mut molecule = Molecule::new(Particle::new("C"));
    assert!(molecule.add_particle_bonded_to(0, Particle::new("C")));
    assert!(molecule.add_particle_bonded_to(1, Particle::new("C")));
    assert!(molecule.add_particle_bonded_to(2, Particle::new("C")));
    assert!(molecule.add_particle_bonded_to(0, Particle::new("H")));
    molecule
}

#[test]
fn names_are_ordered_by_their_bytes() {
    assert!(name_before("Ar", "He"));
    assert!(!name_before("He", "Ar"));
    assert!(!name_before("He", "He"));
    assert!(name_before("H", "He"));
    assert!(!name_before("He", "H"));
    assert!(name_before("", "H"));
    assert!(!name_before("", ""));
    assert!(name_before("Z", "a"));
    assert!(name_before("z", "é"));
    assert!(same_name("He", "He"));
    assert!(!same_name("He", "he"));
    assert!(!same_name("He", "H"));
    assert!(bytes_equal(&[1, 2, 3], &[1, 2, 3]));
    assert!(!bytes_equal(&[1, 2, 3], &[1, 2, 4]));
    assert!(!bytes_equal(&[1, 2], &[1, 2, 3]));
    assert!(bytes_before(&[1, 2], &[1, 2, 3]));
    assert!(bytes_before(&[1, 2, 3], &[1, 3]));
    assert!(!bytes_before(&[2], &[1, 3]));
}

#[test]
fn kinds_follow_the_order_of_first_sight() {
    let mut registry = KindRegistry::new();
    assert_eq!(registry.len(), 0);
    assert_eq!(registry.find("H"), None);
    assert_eq!(registry.get_kind("H"), ParticleKind(0));
    assert_eq!(registry.get_kind("O"), ParticleKind(1));
    assert_eq!(registry.get_kind("H"), ParticleKind(0));
    assert_eq!(registry.get_kind("C"), ParticleKind(2));
    assert_eq!(registry.get_kind("O"), ParticleKind(1));
    assert_eq!(registry.len(), 3);
    assert_eq!(registry.find("C"), Some(ParticleKind(2)));
    assert_eq!(registry.find("N"), None);
    assert_eq!(registry.name(ParticleKind(1)), Some("O"));
    assert_eq!(registry.name(ParticleKind(3)), None);
    assert_eq!(ParticleKind::invalid(), ParticleKind(u32::MAX));
    assert_eq!(Particle::new("Zn").kind, ParticleKind::invalid());
    assert_eq!(Particle::new("Zn").name, "Zn");
}

#[test]
fn kind_tuples_are_sorted() {
    let kind = ParticleKind;
    assert_eq!(sort_pair(kind(2), kind(1)), (kind(1), kind(2)));
    assert_eq!(sort_pair(kind(1), kind(2)), (kind(1), kind(2)));
    assert_eq!(sort_angle(kind(3), kind(0), kind(1)), (kind(1), kind(0), kind(3)));
    assert_eq!(sort_angle(kind(1), kind(5), kind(1)), (kind(1), kind(5), kind(1)));
    // the half with the smaller maximum stands first
    assert_eq!(sort_dihedral(kind(1), kind(3), kind(2), kind(2)), (kind(2), kind(2), kind(3), kind(1)));
    assert_eq!(sort_dihedral(kind(2), kind(2), kind(3), kind(1)), (kind(2), kind(2), kind(3), kind(1)));
    // equal maxima: the half with the smaller minimum stands first
    assert_eq!(sort_dihedral(kind(2), kind(3), kind(3), kind(1)), (kind(1), kind(3), kind(3), kind(2)));
    // both equal: the smaller end stands first
    assert_eq!(sort_dihedral(kind(1), kind(2), kind(1), kind(2)), (kind(1), kind(2), kind(1), kind(2)));
    assert_eq!(sort_dihedral(kind(2), kind(1), kind(2), kind(1)), (kind(1), kind(2), kind(1), kind(2)));
    assert_eq!(sort_dihedral(kind(1), kind(2), kind(2), kind(1)), (kind(1), kind(2), kind(2), kind(1)));
}

#[test]
fn interactions_registry() {
    let mut interactions = Interactions::new();
    let kind = ParticleKind;
    assert_eq!(interactions.pairs((kind(0), kind(1))).len(), 0);
    assert_eq!(interactions.maximum_cutoff(), None);
    let first = PairInteraction {
        potential: PotentialId(1),
        restriction: PairRestriction::Exclude12,
        cutoff: Length(10),
    };
    let second = PairInteraction { potential: PotentialId(2), cutoff: Length(8), ..first };
    interactions.add_pair((kind(1), kind(0)), first);
    interactions.add_pair((kind(0), kind(1)), second);
    interactions.add_pair((kind(1), kind(1)), second);
    assert_eq!(interactions.pairs((kind(0), kind(1))).to_vec(), vec![first, second]);
    assert_eq!(interactions.pairs((kind(1), kind(0))).to_vec(), vec![first, second]);
    assert_eq!(interactions.pairs((kind(1), kind(1))).to_vec(), vec![second]);
    assert_eq!(interactions.pairs((kind(0), kind(0))).len(), 0);
    assert_eq!(interactions.bonds((kind(0), kind(1))).len(), 0);
    interactions.add_bond((kind(0), kind(1)), PotentialId(3));
    interactions.add_angle((kind(2), kind(1), kind(0)), PotentialId(4));
    interactions.add_dihedral((kind(3), kind(2), kind(1), kind(0)), PotentialId(5));
    assert_eq!(interactions.bonds((kind(1), kind(0))).to_vec(), vec![PotentialId(3)]);
    assert_eq!(interactions.angles((kind(0), kind(1), kind(2))).to_vec(), vec![PotentialId(4)]);
    assert_eq!(interactions.angles((kind(1), kind(0), kind(2))).len(), 0);
    assert_eq!(
        interactions.dihedrals((kind(0), kind(1), kind(2), kind(3))).to_vec(),
        vec![PotentialId(5)]
    );
    assert_eq!(interactions.maximum_cutoff(), Some(Length(10)));
    assert_eq!(interactions.coulomb(), None);
    assert_eq!(interactions.globals().len(), 0);
}

#[test]
fn restriction_table() {
    let paths = [
        BondPath::Unconnected,
        BondPath::SameParticle,
        BondPath::OneBond,
        BondPath::TwoBonds,
        BondPath::ThreeBonds,
        BondPath::Far,
    ];
    let half = Scaling::new(500_000_000).unwrap();
    let rows: [(PairRestriction, [bool; 6]); 7] = [
        (PairRestriction::Unrestricted, [false, false, false, false, false, false]),
        (PairRestriction::InterMolecular, [false, true, true, true, true, true]),
        (PairRestriction::IntraMolecular, [true, false, false, false, false, false]),
        (PairRestriction::Exclude12, [false, true, true, false, false, false]),
        (PairRestriction::Exclude13, [false, true, true, true, false, false]),
        (PairRestriction::Exclude14, [false, true, true, true, true, false]),
        (PairRestriction::Scale14(half), [false, true, true, true, false, false]),
    ];
    for (restriction, excluded) in rows.iter() {
        for (path, expected) in paths.iter().zip(excluded.iter()) {
            assert_eq!(restriction.is_excluded_pair(*path), *expected);
            let scaling = match (restriction, path) {
                (PairRestriction::Scale14(_), BondPath::ThreeBonds) => half,
                _ => Scaling::full(),
            };
            assert_eq!(restriction.scaling(*path), scaling);
            assert_eq!(
                restriction.information(*path),
                RestrictionInfo { excluded: *expected, scaling }
            );
        }
    }
    assert_eq!(Scaling::full(), Scaling(1_000_000_000));
    assert_eq!(Scaling::new(1_000_000_000), Some(Scaling::full()));
    assert_eq!(Scaling::new(1_000_000_001), None);
    assert_eq!(Scaling::new(0), Some(Scaling(0)));
}

#[test]
fn molecule_building() {
    let mut molecule = Molecule::new(Particle::new("O"));
    assert_eq!(molecule.size(), 1);
    assert!(!molecule.add_particle_bonded_to(1, Particle::new("H")));
    assert!(molecule.add_particle_bonded_to(0, Particle::new("H")));
    assert!(molecule.add_particle_bonded_to(0, Particle::new("H")));
    assert_eq!(molecule.size(), 3);
    assert_eq!(molecule.bonds_count(), 2);
    assert_eq!(molecule.bond(0), (0, 1));
    assert_eq!(molecule.bond(1), (0, 2));
    assert!(!molecule.add_bond(1, 1));
    assert!(!molecule.add_bond(1, 3));
    assert!(!molecule.add_bond(1, 0));
    assert!(molecule.add_bond(1, 2));
    assert!(!molecule.add_bond(2, 1));
    assert_eq!(molecule.bonds_count(), 3);
    assert_eq!(molecule.name(2), "H");
    assert_eq!(molecule.kind(1), ParticleKind::invalid());
    molecule.set_kind(1, ParticleKind(4));
    assert_eq!(molecule.kind(1), ParticleKind(4));
}

#[test]
fn molecule_hash_is_fnv_of_size_kinds_and_bonds() {
    fn step(hash: u64, word: u64) -> u64 {
        (hash ^ word).wrapping_mul(0x0000_0100_0000_01b3)
    }
    let mut molecule = Molecule::new(Particle::new("O"));
    molecule.set_kind(0, ParticleKind(7));
    let single = step(step(0xcbf2_9ce4_8422_2325, 1), 7);
    assert_eq!(molecule.hash(), MoleculeHash(single));
    assert_eq!(single, 0x082f_2107_b4e8_8b11);
    assert!(molecule.add_particle_bonded_to(0, Particle::new("H")));
    molecule.set_kind(1, ParticleKind(9));
    let mut expected = step(0xcbf2_9ce4_8422_2325, 2);
    expected = step(expected, 7);
    expected = step(expected, 9);
    expected = step(expected, 0);
    expected = step(expected, 1);
    assert_eq!(molecule.hash(), MoleculeHash(expected));
}

#[test]
fn bond_paths_in_a_chain() {
    let mut configuration = Configuration::new();
    configuration.add_molecule(&butane());
    configuration.add_molecule(&Molecule::new(Particle::new("He")));
    assert_eq!(configuration.size(), 6);
    assert_eq!(configuration.molecules().len(), 2);
    assert_eq!(configuration.molecules_count(), 2);
    assert_eq!(configuration.molecule_numbers().clone(), vec![0, 0, 0, 0, 0, 1]);
    assert_eq!(configuration.bond_list().clone(), vec![(0, 1), (1, 2), (2, 3), (0, 4)]);
    assert_eq!(configuration.molecule_id(4), 0);
    assert_eq!(configuration.molecule_id(5), 1);
    assert!(configuration.are_in_same_molecule(0, 4));
    assert!(!configuration.are_in_same_molecule(0, 5));
    assert!(configuration.is_bonded(1, 0));
    assert!(!configuration.is_bonded(0, 2));
    assert_eq!(configuration.bond_path(2, 2), BondPath::SameParticle);
    assert_eq!(configuration.bond_path(0, 1), BondPath::OneBond);
    assert_eq!(configuration.bond_path(1, 0), BondPath::OneBond);
    assert_eq!(configuration.bond_path(0, 2), BondPath::TwoBonds);
    assert_eq!(configuration.bond_path(4, 1), BondPath::TwoBonds);
    assert_eq!(configuration.bond_path(0, 3), BondPath::ThreeBonds);
    assert_eq!(configuration.bond_path(3, 0), BondPath::ThreeBonds);
    assert_eq!(configuration.bond_path(4, 2), BondPath::ThreeBonds);
    assert_eq!(configuration.bond_path(4, 3), BondPath::Far);
    assert_eq!(configuration.bond_path(3, 5), BondPath::Unconnected);
    assert!(configuration.cell().is_infinite());
    configuration.set_cell(UnitCell::cubic(Length(30)));
    assert_eq!(configuration.cell(), UnitCell::cubic(Length(30)));
    assert_eq!(configuration.size(), 6);
}

#[test]
fn bonds_merge_molecules() {
    let mut configuration = Configuration::new();
    for name in ["O", "He", "H", "Ar", "H"] {
        configuration.add_molecule(&Molecule::new(Particle::new(name)));
    }
    assert_eq!(configuration.molecule_numbers().clone(), vec![0, 1, 2, 3, 4]);
    assert!(!configuration.add_bond(0, 0));
    assert!(!configuration.add_bond(0, 5));
    assert!(configuration.add_bond(2, 0));
    assert_eq!(configuration.molecule_numbers().clone(), vec![0, 1, 0, 2, 3]);
    assert_eq!(configuration.molecules_count(), 4);
    assert!(!configuration.add_bond(0, 2));
    assert!(configuration.add_bond(0, 4));
    assert_eq!(configuration.molecule_numbers().clone(), vec![0, 1, 0, 2, 0]);
    assert_eq!(configuration.molecules_count(), 3);
    assert_eq!(configuration.bond_list().clone(), vec![(2, 0), (0, 4)]);
    assert!(configuration.add_bond(2, 4));
    assert_eq!(configuration.molecules_count(), 3);
    assert_eq!(configuration.bond_path(2, 4), BondPath::OneBond);
    assert_eq!(configuration.bond_path(1, 3), BondPath::Unconnected);
    assert!(configuration.add_bond(3, 1));
    assert_eq!(configuration.molecule_numbers().clone(), vec![0, 1, 0, 1, 0]);
    assert_eq!(configuration.molecules_count(), 2);
}

#[test]
fn hash_does_not_depend_on_how_a_molecule_was_built() {
    let mut system = System::new();
    let mut water = Molecule::new(Particle::new("O"));
    assert!(water.add_particle_bonded_to(0, Particle::new("H")));
    assert!(water.add_particle_bonded_to(0, Particle::new("H")));
    system.add_molecule(water);
    system.add_molecule(Molecule::new(Particle::new("He")));
    system.add_molecule(Molecule::new(Particle::new("O")));
    system.add_molecule(Molecule::new(Particle::new("H")));
    system.add_molecule(Molecule::new(Particle::new("H")));
    assert_eq!(system.molecules_count(), 5);
    assert!(system.add_bond(4, 5));
    assert!(system.add_bond(4, 6));
    assert_eq!(system.molecules_count(), 3);
    let hashes = system.molecules();
    assert_eq!(hashes[0], hashes[2]);
    assert_ne!(hashes[0], hashes[1]);
    assert_eq!(hashes[0], system.configuration().molecule_hash(2));
    let composition = system.composition();
    assert_eq!(composition.molecules(hashes[0]), 2);
    assert_eq!(composition.molecules(hashes[1]), 1);
    // the hash of a molecule in the system is that of the molecule on its own
    let mut alone = Molecule::new(Particle::new("O"));
    assert!(alone.add_particle_bonded_to(0, Particle::new("H")));
    assert!(alone.add_particle_bonded_to(0, Particle::new("H")));
    alone.set_kind(0, ParticleKind(0));
    alone.set_kind(1, ParticleKind(1));
    alone.set_kind(2, ParticleKind(1));
    assert_eq!(alone.hash(), hashes[0]);
}

#[test]
fn second_molecule_has_shifted_bonds() {
    let mut configuration = Configuration::new();
    configuration.add_molecule(&Molecule::new(Particle::new("He")));
    configuration.add_molecule(&butane());
    assert_eq!(configuration.bond_list().clone(), vec![(1, 2), (2, 3), (3, 4), (1, 5)]);
    assert_eq!(configuration.molecule_numbers().clone(), vec![0, 1, 1, 1, 1, 1]);
    assert_eq!(configuration.particles().name[5], "H");
    assert_eq!(configuration.bond_path(1, 4), BondPath::ThreeBonds);
    assert_eq!(configuration.bond_path(0, 1), BondPath::Unconnected);
}

fn diatomic_system(restriction: PairRestriction) -> System {
    let mut system = System::with_cell(UnitCell::cubic(Length(100)));
    let mut first = Molecule::new(Particle::new("N"));
    assert!(first.add_particle_bonded_to(0, Particle::new("N")));
    system.add_molecule(first);
    let mut second = Molecule::new(Particle::new("N"));
    assert!(second.add_particle_bonded_to(0, Particle::new("N")));
    system.add_molecule(second);
    let potential = PairInteraction { potential: PotentialId(3), restriction, cutoff: Length(50) };
    assert_eq!(system.add_pair_potential(("N", "N"), potential), Ok(()));
    system
}

#[test]
fn diatomic_with_exclude12() {
    let system = diatomic_system(PairRestriction::Exclude12);
    let mut advisories = Advisories::new();
    let full = PairTerm { potential: PotentialId(3), cutoff: Length(50), scaling: Scaling::full() };
    // within a molecule the bonded pair does not count
    assert_eq!(system.pair_terms(0, 1, &mut advisories), vec![]);
    assert_eq!(system.pair_terms(2, 3, &mut advisories), vec![]);
    // across molecules it counts fully
    assert_eq!(system.pair_terms(0, 2, &mut advisories), vec![full]);
    assert_eq!(system.pair_terms(1, 3, &mut advisories), vec![full]);
    assert_eq!(advisories.len(), 0);
    // and so does the same pair without any restriction
    let system = diatomic_system(PairRestriction::Unrestricted);
    assert_eq!(system.pair_terms(0, 1, &mut advisories), vec![full]);
    assert_eq!(system.pair_terms(0, 2, &mut advisories), vec![full]);
}

#[test]
fn scaled_terms_and_coulomb_weight() {
    let mut system = System::with_cell(UnitCell::cubic(Length(100)));
    system.add_molecule(butane());
    system.add_molecule(Molecule::new(Particle::new("C")));
    let scale = Scaling::new(833_333_333).unwrap();
    let scaled = PairInteraction {
        potential: PotentialId(1),
        restriction: PairRestriction::Scale14(scale),
        cutoff: Length(40),
    };
    let inter = PairInteraction {
        potential: PotentialId(2),
        restriction: PairRestriction::InterMolecular,
        cutoff: Length(30),
    };
    assert_eq!(system.add_pair_potential(("C", "C"), scaled), Ok(()));
    assert_eq!(system.add_pair_potential(("C", "C"), inter), Ok(()));
    let mut advisories = Advisories::new();
    let term = |potential: u64, cutoff: u64, scaling: Scaling| PairTerm {
        potential: PotentialId(potential),
        cutoff: Length(cutoff),
        scaling,
    };
    assert_eq!(system.pair_terms(0, 1, &mut advisories), vec![]);
    assert_eq!(system.pair_terms(0, 2, &mut advisories), vec![]);
    assert_eq!(system.pair_terms(0, 3, &mut advisories), vec![term(1, 40, scale)]);
    assert_eq!(
        system.pair_terms(0, 5, &mut advisories),
        vec![term(1, 40, Scaling::full()), term(2, 30, Scaling::full())]
    );
    assert_eq!(advisories.len(), 0);
    assert_eq!(system.pair_terms(0, 4, &mut advisories), vec![]);
    assert_eq!(advisories.len(), 1);

    assert_eq!(system.coulomb_term(0, 5), CoulombTerm::Nothing);
    let ewald = CoulombicPotential {
        solver: CoulombicSolver::Ewald,
        potential: PotentialId(9),
        restriction: PairRestriction::Scale14(scale),
        cutoff: Some(Length(45)),
    };
    assert_eq!(system.set_coulomb_potential(ewald), Ok(()));
    assert_eq!(system.coulomb_term(0, 1), CoulombTerm::Correction);
    assert_eq!(system.coulomb_term(0, 2), CoulombTerm::Correction);
    assert_eq!(system.coulomb_term(0, 3), CoulombTerm::RealSpace(scale));
    assert_eq!(system.coulomb_term(4, 3), CoulombTerm::RealSpace(Scaling::full()));
    assert_eq!(system.coulomb_term(0, 5), CoulombTerm::RealSpace(Scaling::full()));
    let wolf = CoulombicPotential { solver: CoulombicSolver::Wolf, ..ewald };
    assert_eq!(system.set_coulomb_potential(wolf), Ok(()));
    assert_eq!(system.coulomb_term(0, 1), CoulombTerm::Nothing);
    assert_eq!(system.coulomb_term(0, 3), CoulombTerm::RealSpace(scale));
    assert_eq!(system.coulomb_term(0, 5), CoulombTerm::RealSpace(Scaling::full()));
}

#[test]
fn pairs_changed_by_a_move() {
    assert_eq!(classes_of_move(4, &[2]), Some(vec![0, 0, 3, 0]));
    assert_eq!(classes_of_move(4, &[2, 0, 2]), Some(vec![1, 0, 3, 0]));
    assert_eq!(classes_of_move(4, &[]), Some(vec![0, 0, 0, 0]));
    assert_eq!(classes_of_move(4, &[4]), None);
    assert_eq!(classes_of_move(0, &[]), Some(vec![]));
    assert_eq!(pairs_to_compute(&vec![0, 0, 3, 0]), vec![(0, 2), (1, 2), (2, 3)]);
    assert_eq!(
        pairs_to_compute(&vec![1, 0, 3, 0]),
        vec![(0, 1), (0, 2), (0, 3), (1, 2), (2, 3)]
    );
    assert_eq!(pairs_to_compute(&vec![5, 5, 5]), vec![]);
    assert_eq!(pairs_to_compute(&vec![]), vec![]);
    assert_eq!(pairs_to_compute(&vec![0, 0, 1, 1]), vec![(0, 2), (0, 3), (1, 2), (1, 3)]);
}

#[test]
fn bonds_changed_by_a_move() {
    let bonds = vec![(0, 1), (1, 2), (3, 2), (4, 0)];
    assert_eq!(bonds_to_compute(&vec![0, 0, 3, 0, 0], &bonds), vec![(1, 2), (3, 2)]);
    assert_eq!(bonds_to_compute(&vec![1, 0, 3, 0, 0], &bonds), vec![(0, 1), (1, 2), (3, 2), (4, 0)]);
    assert_eq!(bonds_to_compute(&vec![2, 2, 2, 2, 2], &bonds), vec![]);
    assert_eq!(bonds_to_compute(&vec![0, 0, 0, 0, 1], &vec![]), vec![]);
}

#[test]
fn cost_over_changed_pairs_is_the_change_of_the_total() {
    // an energy in whole numbers that depends on both particles and their places
    fn energy(places: &[i64], i: usize, j: usize) -> i64 {
        let apart = places[i] - places[j];
        1000 / (1 + apart * apart) + (i as i64) * 7 - (j as i64) * 3
    }
    fn total(places: &[i64]) -> i64 {
        let mut sum = 0;
        for i in 0..places.len() {
            for j in (i + 1)..places.len() {
                sum += energy(places, i, j);
            }
        }
        sum
    }
    let before = [0, 3, 7, 12, 20];
    let after = [0, 5, 7, 12, 16];
    let classes = classes_of_move(5, &[1, 4]).unwrap();
    let pairs = pairs_to_compute(&classes);
    assert_eq!(pairs.len(), 7);
    let cost: i64 = pairs.iter().map(|&(i, j)| energy(&after, i, j) - energy(&before, i, j)).sum();
    assert_eq!(cost, total(&after) - total(&before));
}

#[test]
fn cost_of_a_rigid_move_needs_no_pair_within_a_molecule() {
    // the energy of a pair within a molecule depends on the distance alone,
    // and a rigid move keeps it; across molecules it depends on the places
    let molecules = vec![0, 0, 1, 1, 1, 2];
    let energy = |places: &[i64], i: usize, j: usize| -> i64 {
        if molecules[i] == molecules[j] {
            (places[i] - places[j]).abs() * 11
        } else {
            places[i] * 3 - places[j] * 5 + (i * j) as i64
        }
    };
    let before = [0, 2, 10, 11, 13, 30];
    let after = [5, 7, 1, 2, 4, 40];
    let total = |places: &[i64]| -> i64 {
        let mut sum = 0;
        for i in 0..places.len() {
            for j in (i + 1)..places.len() {
                sum += energy(places, i, j);
            }
        }
        sum
    };
    let pairs = pairs_to_compute(&molecules);
    assert_eq!(pairs.len(), 11);
    assert!(pairs.iter().all(|&(i, j)| molecules[i] != molecules[j]));
    let cost: i64 = pairs.iter().map(|&(i, j)| energy(&after, i, j) - energy(&before, i, j)).sum();
    assert_eq!(cost, total(&after) - total(&before));
    assert_eq!(bonds_to_compute(&molecules, &vec![(0, 1), (2, 3), (4, 3)]), vec![]);
}

#[test]
fn cost_over_changed_bonds_is_the_change_of_the_bond_energy() {
    let bonds = vec![(0, 1), (1, 2), (3, 2), (4, 0)];
    let energy = |places: &[i64], i: usize, j: usize| (places[i] - places[j]).pow(2) + i as i64;
    let before = [0, 3, 7, 12, 20];
    let after = [0, 3, 9, 12, 16];
    let classes = classes_of_move(5, &[2, 4]).unwrap();
    let changed = bonds_to_compute(&classes, &bonds);
    assert_eq!(changed, vec![(1, 2), (3, 2), (4, 0)]);
    let sum = |places: &[i64], list: &[(usize, usize)]| -> i64 {
        list.iter().map(|&(i, j)| energy(places, i, j)).sum()
    };
    assert_eq!(
        sum(&after, &changed) - sum(&before, &changed),
        sum(&after, &bonds) - sum(&before, &bonds)
    );
}

#[test]
fn energy_cache_lifecycle() {
    let mut system = System::new();
    system.add_molecule(butane());
    system.add_molecule(Molecule::new(Particle::new("He")));
    system.add_molecule(Molecule::new(Particle::new("He")));
    let energies = |pairs: i64| Energies { pairs, bonded: 2i64, global: 3i64 };

    let mut cache: EnergyCache<i64> = EnergyCache::new();
    assert!(!cache.is_initialized());
    assert!(cache.energies().is_none());
    assert!(matches!(cache.move_particles_cost(&system, &[0]), Err(CacheError::NotInitialized)));
    assert!(matches!(cache.move_all_rigid_molecules_cost(&system), Err(CacheError::NotInitialized)));
    assert_eq!(cache.generation(), 0);
    assert_eq!(cache.propose(0, energies(5)), Err(CacheError::NotInitialized));
    cache.update();
    assert!(!cache.is_initialized());

    cache.init(&system, energies(10));
    assert!(cache.is_initialized());
    assert_eq!(cache.energies().unwrap().pairs, 10);
    assert_eq!(cache.generation(), 1);
    let terms = cache.move_particles_cost(&system, &[5]).unwrap();
    assert_eq!(terms.generation, 1);
    assert_eq!(terms.classes, vec![0, 0, 0, 0, 0, 6, 0]);
    assert_eq!(terms.pairs, vec![(0, 5), (1, 5), (2, 5), (3, 5), (4, 5), (5, 6)]);
    assert_eq!(terms.bonds, vec![]);
    let terms = cache.move_particles_cost(&system, &[1, 4]).unwrap();
    assert_eq!(terms.pairs.len(), 11);
    assert_eq!(terms.bonds, vec![(0, 1), (1, 2), (0, 4)]);
    assert!(changes(&terms.classes, &[0, 1, 2]));
    assert!(changes(&terms.classes, &[3, 2, 1]));
    assert!(!changes(&terms.classes, &[0, 2, 3]));
    assert!(!changes(&terms.classes, &[5]));
    assert!(!changes(&terms.classes, &[]));
    assert!(changes(&terms.classes, &[1, 4]));
    assert!(matches!(cache.move_particles_cost(&system, &[7]), Err(CacheError::NoSuchParticle)));
    // the cost of a move is asked for without a change of the cache
    assert_eq!(cache.energies().unwrap().pairs, 10);

    let rigid = cache.move_all_rigid_molecules_cost(&system).unwrap();
    assert_eq!(rigid.classes, vec![0, 0, 0, 0, 0, 1, 2]);
    assert_eq!(rigid.bonds, vec![]);
    let rigid = rigid.pairs;
    assert_eq!(rigid.len(), 11);
    assert!(rigid.iter().all(|&(i, j)| i < j && !system.configuration().are_in_same_molecule(i, j)));
    assert!(rigid.contains(&(4, 5)));
    assert!(rigid.contains(&(5, 6)));
    assert!(!rigid.contains(&(0, 1)));

    // a rejected move leaves the energies
    assert_eq!(cache.propose(1, energies(20)), Ok(()));
    assert_eq!(cache.energies().unwrap().pairs, 10);
    cache.unused();
    cache.update();
    assert_eq!(cache.energies().unwrap().pairs, 10);
    assert_eq!(cache.generation(), 1);
    // an accepted one replaces them
    assert_eq!(cache.propose(1, energies(30)), Ok(()));
    cache.update();
    assert_eq!(cache.energies().unwrap().pairs, 30);
    assert_eq!(cache.energies().unwrap().bonded, 2);
    assert_eq!(cache.energies().unwrap().global, 3);
    assert_eq!(cache.generation(), 2);
    cache.update();
    assert_eq!(cache.energies().unwrap().pairs, 30);
    assert_eq!(cache.generation(), 2);
    // energies computed against earlier energies are not taken
    assert_eq!(cache.propose(terms.generation, energies(40)), Err(CacheError::Stale));
    cache.update();
    assert_eq!(cache.energies().unwrap().pairs, 30);
    let terms = cache.move_particles_cost(&system, &[0]).unwrap();
    assert_eq!(terms.generation, 2);
    assert_eq!(cache.propose(terms.generation, energies(50)), Ok(()));
    cache.init(&system, energies(60));
    assert_eq!(cache.generation(), 3);
    cache.update();
    assert_eq!(cache.energies().unwrap().pairs, 60);

    system.add_molecule(Molecule::new(Particle::new("He")));
    assert!(matches!(cache.move_particles_cost(&system, &[0]), Err(CacheError::SizeChanged)));
    assert!(matches!(cache.move_all_rigid_molecules_cost(&system), Err(CacheError::SizeChanged)));
}
