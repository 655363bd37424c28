use lumol_core::advisories::{Advisories, Category};
use lumol_core::interactions::{
    CoulombicPotential, CoulombicSolver, GlobalPotential, PairInteraction, PotentialId,
};
use lumol_core::kinds::ParticleKind;
use lumol_core::molecule::{Molecule, Particle};
use lumol_core::quantities::{CellShape, Length, Temperature, UnitCell};
use lumol_core::restrictions::PairRestriction;
use lumol_core::system::{ConfigurationError, DegreesOfFreedom, System};

fn lennard_jones(id: u64, cutoff: u64) -> PairInteraction {
    PairInteraction {
        potential: PotentialId(id),
        restriction: PairRestriction::Unrestricted,
        cutoff: Length(cutoff),
    }
}

#[test]
fn add_molecule() {
    let mut system = System::new();
    system.add_molecule(Molecule::new(Particle::new("H")));
    system.add_molecule(Molecule::new(Particle::new("O")));
    system.add_molecule(Molecule::new(Particle::new("H")));

    assert_eq!(system.particles().kind[0], ParticleKind(0));
    assert_eq!(system.particles().kind[1], ParticleKind(1));
    assert_eq!(system.particles().kind[2], ParticleKind(0));
}

#[test]
#[should_panic]
fn negative_simulated_temperature() {
    let mut system = System::new();
    system.simulated_temperature(Some(Temperature(-1))).unwrap();
}

#[test]
fn simulated_temperature_is_kept_unless_negative() {
    let mut system = System::new();
    assert_eq!(system.external_temperature(), None);
    assert_eq!(system.simulated_temperature(Some(Temperature(300))), Ok(()));
    assert_eq!(system.external_temperature(), Some(Temperature(300)));
    assert_eq!(
        system.simulated_temperature(Some(Temperature(-1))),
        Err(ConfigurationError::NegativeTemperature)
    );
    assert_eq!(system.external_temperature(), Some(Temperature(300)));
    assert_eq!(system.simulated_temperature(Some(Temperature(0))), Ok(()));
    assert_eq!(system.external_temperature(), Some(Temperature(0)));
    assert_eq!(system.simulated_temperature(None), Ok(()));
    assert_eq!(system.external_temperature(), None);
    assert_eq!(
        ConfigurationError::NegativeTemperature.message(),
        "External temperature must be positive"
    );
}

#[test]
fn deref() {
    let mut system = System::new();
    system.add_molecule(Molecule::new(Particle::new("H")));
    system.add_molecule(Molecule::new(Particle::new("O")));
    system.add_molecule(Molecule::new(Particle::new("H")));
    assert_eq!(system.molecules().iter().count(), 3);

    let _ = system.add_bond(0, 1);
    let _ = system.add_bond(2, 1);

    assert_eq!(system.molecules().iter().count(), 1);
}

#[test]
fn composition() {
    let mut system = System::new();
    system.add_molecule(Molecule::new(Particle::new("H")));
    system.add_molecule(Molecule::new(Particle::new("O")));
    system.add_molecule(Molecule::new(Particle::new("O")));
    system.add_molecule(Molecule::new(Particle::new("H")));
    system.add_molecule(Molecule::new(Particle::new("C")));
    system.add_molecule(Molecule::new(Particle::new("U")));
    system.add_molecule(Molecule::new(Particle::new("H")));

    let composition = system.composition();
    assert_eq!(composition.particles(ParticleKind(0)), 3);
    assert_eq!(composition.particles(ParticleKind(1)), 2);
    assert_eq!(composition.particles(ParticleKind(2)), 1);
    assert_eq!(composition.particles(ParticleKind(3)), 1);
}

#[test]
fn missing_interaction() {
    let mut system = System::new();
    system.add_molecule(Molecule::new(Particle::new("He")));
    system.add_molecule(Molecule::new(Particle::new("He")));
    system.add_molecule(Molecule::new(Particle::new("He")));
    system.add_molecule(Molecule::new(Particle::new("He")));
    let mut advisories = Advisories::new();
    assert_eq!(system.pair_potentials(0, 0, &mut advisories).len(), 0);
    assert_eq!(system.bond_potentials(0, 0, &mut advisories).len(), 0);
    assert_eq!(system.angle_potentials(0, 0, 0, &mut advisories).len(), 0);
    assert_eq!(system.dihedral_potentials(0, 0, 0, 0, &mut advisories).len(), 0);
}

#[test]
fn missing_interaction_is_reported_once() {
    let mut system = System::new();
    system.add_molecule(Molecule::new(Particle::new("He")));
    system.add_molecule(Molecule::new(Particle::new("Ar")));
    let mut advisories = Advisories::new();
    assert_eq!(system.pair_potentials(0, 1, &mut advisories).len(), 0);
    assert_eq!(advisories.len(), 1);
    assert_eq!(system.pair_potentials(1, 0, &mut advisories).len(), 0);
    assert_eq!(system.pair_potentials(0, 1, &mut advisories).len(), 0);
    assert_eq!(advisories.len(), 1);
    assert_eq!(advisories.get(0).category(), Category::Pair);
    assert_eq!(
        advisories.get(0).message(),
        "No potential defined for the pair (Ar, He)"
    );
    assert_eq!(system.bond_potentials(0, 1, &mut advisories).len(), 0);
    assert_eq!(advisories.len(), 2);
    assert_eq!(
        advisories.get(1).message(),
        "No potential defined for the bond (Ar, He)"
    );
    assert_eq!(system.pair_potentials(0, 0, &mut advisories).len(), 0);
    assert_eq!(advisories.len(), 3);
    assert_eq!(
        advisories.get(2).message(),
        "No potential defined for the pair (He, He)"
    );
}

#[test]
fn angle_and_dihedral_advisories_are_canonical() {
    let mut system = System::new();
    system.add_molecule(Molecule::new(Particle::new("O")));
    system.add_molecule(Molecule::new(Particle::new("H")));
    system.add_molecule(Molecule::new(Particle::new("C")));
    system.add_molecule(Molecule::new(Particle::new("N")));
    let mut advisories = Advisories::new();
    assert_eq!(system.angle_potentials(0, 1, 2, &mut advisories).len(), 0);
    assert_eq!(system.angle_potentials(2, 1, 0, &mut advisories).len(), 0);
    assert_eq!(advisories.len(), 1);
    assert_eq!(
        advisories.get(0).message(),
        "No potential defined for the angle (C, H, O)"
    );
    // halves {O, H} and {C, N}: the later names are O and N, and N comes first
    assert_eq!(system.dihedral_potentials(0, 1, 2, 3, &mut advisories).len(), 0);
    assert_eq!(system.dihedral_potentials(3, 2, 1, 0, &mut advisories).len(), 0);
    assert_eq!(advisories.len(), 2);
    assert_eq!(
        advisories.get(1).message(),
        "No potential defined for the dihedral angle (N, C, H, O)"
    );
    // the same two names in both halves: the tuple and its reverse are one
    assert_eq!(system.dihedral_potentials(0, 1, 0, 1, &mut advisories).len(), 0);
    assert_eq!(system.dihedral_potentials(1, 0, 1, 0, &mut advisories).len(), 0);
    assert_eq!(advisories.len(), 3);
    assert_eq!(
        advisories.get(2).message(),
        "No potential defined for the dihedral angle (H, O, H, O)"
    );
}

#[test]
fn pair_potential_is_found_in_both_orders() {
    let mut system = System::with_cell(UnitCell::cubic(Length(100)));
    system.add_molecule(Molecule::new(Particle::new("He")));
    system.add_molecule(Molecule::new(Particle::new("Ar")));
    assert_eq!(system.add_pair_potential(("Ar", "He"), lennard_jones(7, 40)), Ok(()));
    assert_eq!(system.add_pair_potential(("He", "Ar"), lennard_jones(8, 50)), Ok(()));
    let mut advisories = Advisories::new();
    let found = system.pair_potentials(0, 1, &mut advisories).to_vec();
    assert_eq!(found, vec![lennard_jones(7, 40), lennard_jones(8, 50)]);
    let found = system.pair_potentials(1, 0, &mut advisories).to_vec();
    assert_eq!(found, vec![lennard_jones(7, 40), lennard_jones(8, 50)]);
    assert_eq!(advisories.len(), 0);
    assert_eq!(system.pair_potentials(0, 0, &mut advisories).len(), 0);
    assert_eq!(advisories.len(), 1);
}

#[test]
fn cutoff_beyond_half_of_the_cell_is_refused() {
    let mut system = System::with_cell(UnitCell::ortho(Length(100), Length(80), Length(120)));
    assert_eq!(system.add_pair_potential(("He", "He"), lennard_jones(1, 40)), Ok(()));
    assert_eq!(
        system.add_pair_potential(("He", "He"), lennard_jones(2, 41)),
        Err(ConfigurationError::CutoffTooLarge)
    );
    let mut advisories = Advisories::new();
    system.add_molecule(Molecule::new(Particle::new("He")));
    assert_eq!(system.pair_potentials(0, 0, &mut advisories).len(), 1);
    assert_eq!(
        ConfigurationError::CutoffTooLarge.message(),
        "Can not add a potential with a cutoff bigger than half of the smallest cell length. \
         Try increasing the cell size or decreasing the cutoff."
    );
}

#[test]
fn new_cell_is_infinite_with_edges_of_zero() {
    let cell = UnitCell::new();
    assert_eq!(
        cell,
        UnitCell { shape: CellShape::Infinite, a: Length(0), b: Length(0), c: Length(0) }
    );
    assert_eq!(UnitCell::new(), cell);
    assert_eq!(System::new().cell(), cell);
}

#[test]
fn odd_edge_admits_half_rounded_down_only() {
    let cell = UnitCell::cubic(Length(81));
    assert!(cell.admits(Length(40)));
    assert!(!cell.admits(Length(41)));
    assert!(UnitCell::new().admits(Length(u64::MAX)));
    assert!(UnitCell::new().is_infinite());
    assert!(!UnitCell::cubic(Length(u64::MAX)).admits(Length(u64::MAX)));
    assert!(UnitCell::triclinic(Length(10), Length(20), Length(30)).admits(Length(5)));
    assert!(!UnitCell::triclinic(Length(10), Length(20), Length(30)).admits(Length(6)));
}

#[test]
fn coulomb_cutoff_is_checked_against_the_cell() {
    let mut system = System::with_cell(UnitCell::cubic(Length(20)));
    let wolf = CoulombicPotential {
        solver: CoulombicSolver::Wolf,
        potential: PotentialId(1),
        restriction: PairRestriction::Unrestricted,
        cutoff: Some(Length(11)),
    };
    assert_eq!(system.set_coulomb_potential(wolf), Err(ConfigurationError::CutoffTooLarge));
    assert_eq!(system.coulomb_potential(), None);
    let ewald = CoulombicPotential {
        solver: CoulombicSolver::Ewald,
        potential: PotentialId(2),
        restriction: PairRestriction::InterMolecular,
        cutoff: Some(Length(10)),
    };
    assert_eq!(system.set_coulomb_potential(ewald), Ok(()));
    assert_eq!(system.coulomb_potential(), Some(ewald));
    let unbounded = CoulombicPotential { cutoff: None, ..wolf };
    assert_eq!(system.set_coulomb_potential(unbounded), Ok(()));
    assert_eq!(system.coulomb_potential(), Some(unbounded));
}

#[test]
fn maximum_cutoff_is_the_largest_or_none() {
    let mut system = System::with_cell(UnitCell::cubic(Length(1000)));
    assert_eq!(system.maximum_cutoff(), None);
    assert_eq!(system.add_pair_potential(("A", "B"), lennard_jones(1, 30)), Ok(()));
    assert_eq!(system.maximum_cutoff(), Some(Length(30)));
    assert_eq!(system.add_pair_potential(("A", "A"), lennard_jones(2, 70)), Ok(()));
    assert_eq!(system.add_pair_potential(("A", "B"), lennard_jones(3, 50)), Ok(()));
    assert_eq!(system.maximum_cutoff(), Some(Length(70)));
    system.add_global_potential(GlobalPotential { potential: PotentialId(4), cutoff: Some(Length(90)) });
    assert_eq!(system.maximum_cutoff(), Some(Length(90)));
    let wolf = CoulombicPotential {
        solver: CoulombicSolver::Wolf,
        potential: PotentialId(5),
        restriction: PairRestriction::Unrestricted,
        cutoff: Some(Length(95)),
    };
    assert_eq!(system.set_coulomb_potential(wolf), Ok(()));
    assert_eq!(system.maximum_cutoff(), Some(Length(95)));
    assert_eq!(system.global_potentials().len(), 1);
    system.add_global_potential(GlobalPotential { potential: PotentialId(6), cutoff: None });
    assert_eq!(system.maximum_cutoff(), None);
}

#[test]
fn bonded_potentials_use_canonical_tuples(){
    let mut system = System::new();
    system.add_molecule(Molecule::new(Particle::new("H")));
    system.add_molecule(Molecule::new(Particle::new("O")));
    system.add_molecule(Molecule::new(Particle::new("C")));
    system.add_bond_potential(("O", "H"), PotentialId(1));
    system.add_angle_potential(("H", "O", "C"), PotentialId(2));
    system.add_angle_potential(("C", "O", "H"), PotentialId(3));
    system.add_dihedral_potential(("H", "O", "C", "C"), PotentialId(4));
    system.add_dihedral_potential(("C", "C", "O", "H"), PotentialId(5));
    system.add_dihedral_potential(("H", "O", "H", "O"), PotentialId(6));
    system.add_dihedral_potential(("O", "H", "O", "H"), PotentialId(7));
    let mut advisories = Advisories::new();
    assert_eq!(system.bond_potentials(0, 1, &mut advisories).to_vec(), vec![PotentialId(1)]);
    assert_eq!(system.bond_potentials(1, 0, &mut advisories).to_vec(), vec![PotentialId(1)]);
    assert_eq!(
        system.angle_potentials(2, 1, 0, &mut advisories).to_vec(),
        vec![PotentialId(2), PotentialId(3)]
    );
    assert_eq!(system.angle_potentials(1, 0, 2, &mut advisories).len(), 0);
    assert_eq!(
        system.dihedral_potentials(0, 1, 2, 2, &mut advisories).to_vec(),
        vec![PotentialId(4), PotentialId(5)]
    );
    assert_eq!(
        system.dihedral_potentials(2, 2, 1, 0, &mut advisories).to_vec(),
        vec![PotentialId(4), PotentialId(5)]
    );
    assert_eq!(
        system.dihedral_potentials(0, 1, 0, 1, &mut advisories).to_vec(),
        vec![PotentialId(6), PotentialId(7)]
    );
    assert_eq!(
        system.dihedral_potentials(1, 0, 1, 0, &mut advisories).to_vec(),
        vec![PotentialId(6), PotentialId(7)]
    );
    assert_eq!(advisories.len(), 1);
}

#[test]
fn degrees_of_freedom_follow_the_mode() {
    let mut system = System::new();
    let mut water = Molecule::new(Particle::new("O"));
    assert!(water.add_particle_bonded_to(0, Particle::new("H")));
    assert!(water.add_particle_bonded_to(0, Particle::new("H")));
    system.add_molecule(water);
    system.add_molecule(Molecule::new(Particle::new("He")));
    assert_eq!(system.size(), 4);
    assert_eq!(system.molecules().iter().count(), 2);
    assert_eq!(system.simulated_degrees_of_freedom, DegreesOfFreedom::Particles);
    assert_eq!(system.degrees_of_freedom(), 12);
    system.simulated_degrees_of_freedom = DegreesOfFreedom::Frozen(5);
    assert_eq!(system.degrees_of_freedom(), 7);
    system.simulated_degrees_of_freedom = DegreesOfFreedom::Molecules;
    assert_eq!(system.degrees_of_freedom(), 6);
    assert_eq!(system.step, 0);
}

#[test]
fn composition_counts_molecules_by_their_make() {
    let mut system = System::new();
    for _ in 0..3 {
        let mut water = Molecule::new(Particle::new("O"));
        assert!(water.add_particle_bonded_to(0, Particle::new("H")));
        assert!(water.add_particle_bonded_to(0, Particle::new("H")));
        system.add_molecule(water);
    }
    system.add_molecule(Molecule::new(Particle::new("O")));
    let composition = system.composition();
    let hashes = system.molecules();
    assert_eq!(hashes.len(), 4);
    assert_eq!(hashes[0], hashes[1]);
    assert_eq!(hashes[0], hashes[2]);
    assert_ne!(hashes[0], hashes[3]);
    assert_eq!(composition.molecules(hashes[0]), 3);
    assert_eq!(composition.molecules(hashes[3]), 1);
    assert_eq!(composition.particles(ParticleKind(0)), 4);
    assert_eq!(composition.particles(ParticleKind(1)), 6);
    assert_eq!(composition.particles(ParticleKind(2)), 0);
}
