//! Dispatch for the evaluation of energies: which potentials act on a pair
//! of particles, and with which weight.

use vstd::prelude::*;
use crate::advisories::{Advisories, AdvisoryView, Category, canonical_pair_names, recorded};
use crate::configuration::path_between;
use crate::molecule::bonded;
use crate::interactions::{CoulombicPotential, CoulombicSolver, PairInteraction, PotentialId};
use crate::quantities::{Length, Scaling};
use crate::restrictions::{BondPath, PairRestriction};
use crate::system::System;

verus! {

/// One term of the pair energy: a potential, the distance up to which it
/// is computed, and the factor that multiplies it.
#[derive(Clone, Copy, Debug, PartialEq, Eq, Structural)]
pub struct PairTerm {
    pub potential: PotentialId,
    pub cutoff: Length,
    pub scaling: Scaling,
}

/// What the coulombic potential asks for a pair of particles.
#[derive(Clone, Copy, Debug, PartialEq, Eq, Structural)]
pub enum CoulombTerm {
    /// Nothing: no coulombic potential is set, or the Wolf summation leaves
    /// the pair out.
    Nothing,
    /// The term in real space, multiplied by the given factor.
    RealSpace(Scaling),
    /// The correction of the Ewald summation for a pair that its
    /// restriction leaves out: the sum in reciprocal space counts every
    /// pair, and the correction takes this pair out again.
    Correction,
}

/// What `coulomb` asks for a pair connected by `path`: the term in real
/// space with the factor of the restriction if the restriction keeps the
/// pair; else the correction under the Ewald summation, and nothing under
/// the Wolf summation.
pub open spec fn coulomb_term_of(coulomb: Option<CoulombicPotential>, path: BondPath) -> CoulombTerm {
    match coulomb {
        None => CoulombTerm::Nothing,
        Some(potential) => if potential.restriction.excludes(path) {
            match potential.solver {
                CoulombicSolver::Ewald => CoulombTerm::Correction,
                CoulombicSolver::Wolf => CoulombTerm::Nothing,
            }
        } else {
            CoulombTerm::RealSpace(potential.restriction.scaling_spec(path))
        },
    }
}

/// The terms that the first `count` of `potentials` give for a pair
/// connected by `path`: one for each potential that does not leave the pair
/// out, in the order of the potentials.
pub open spec fn terms_of(potentials: Seq<PairInteraction>, path: BondPath, count: nat) -> Seq<PairTerm>
    decreases count,
{
    if count == 0 {
        Seq::empty()
    } else {
        let before = terms_of(potentials, path, (count - 1) as nat);
        let last = potentials[count - 1];
        if last.restriction.excludes(path) {
            before
        } else {
            before.push(
                PairTerm {
                    potential: last.potential,
                    cutoff: last.cutoff,
                    scaling: last.restriction.scaling_spec(path),
                },
            )
        }
    }
}

/// The weight that `restriction` gives the pair `(i, j)`: `None` if it
/// leaves the pair out.
pub open spec fn weight_between(
    restriction: PairRestriction,
    molecule_ids: Seq<usize>,
    bonds: Seq<(usize, usize)>,
    i: int,
    j: int,
) -> Option<Scaling> {
    restriction.information_spec(path_between(molecule_ids, bonds, i, j)).weight()
}

/// Two bonded particles do not interact under any restriction that leaves
/// out bonded pairs, nor under the intermolecular one.
pub proof fn lemma_bonded_pair_is_left_out(
    molecule_ids: Seq<usize>,
    bonds: Seq<(usize, usize)>,
    i: int,
    j: int,
    scaling: Scaling,
)
    requires
        i != j,
        molecule_ids[i] == molecule_ids[j],
        bonded(bonds, i, j),
    ensures
        weight_between(PairRestriction::Exclude12, molecule_ids, bonds, i, j) is None,
        weight_between(PairRestriction::Exclude13, molecule_ids, bonds, i, j) is None,
        weight_between(PairRestriction::Exclude14, molecule_ids, bonds, i, j) is None,
        weight_between(PairRestriction::Scale14(scaling), molecule_ids, bonds, i, j) is None,
        weight_between(PairRestriction::InterMolecular, molecule_ids, bonds, i, j) is None,
        weight_between(PairRestriction::Unrestricted, molecule_ids, bonds, i, j) == Some(
            Scaling::full_spec(),
        ),
        weight_between(PairRestriction::IntraMolecular, molecule_ids, bonds, i, j) == Some(
            Scaling::full_spec(),
        ),
{
}

/// Two particles of different molecules interact at full weight under
/// every restriction but the intramolecular one.
pub proof fn lemma_pair_across_molecules_counts_fully(
    restriction: PairRestriction,
    molecule_ids: Seq<usize>,
    bonds: Seq<(usize, usize)>,
    i: int,
    j: int,
)
    requires
        molecule_ids[i] != molecule_ids[j],
    ensures
        weight_between(restriction, molecule_ids, bonds, i, j) == if restriction is IntraMolecular {
            None
        } else {
            Some(Scaling::full_spec())
        },
{
}

impl System {
    /// How the particles `i` and `j` are connected.
    pub open spec fn path_spec(&self, i: int, j: int) -> BondPath {
        path_between(
            self.configuration_spec().molecule_ids(),
            self.configuration_spec().bonds(),
            i,
            j,
        )
    }

    /// The terms of the pair energy between the particles `i` and `j`: one
    /// for each pair potential of their kinds whose restriction does not
    /// leave the pair out, with the factor that the restriction gives it.
    ///
    /// If no potential is registered for the kinds, this is recorded in
    /// `advisories`.
    pub fn pair_terms(&self, i: usize, j: usize, advisories: &mut Advisories) -> (terms: Vec<PairTerm>)
        requires
            self.well_formed(),
            old(advisories).well_formed(),
            i < self.names().len(),
            j < self.names().len(),
        ensures
            ({
                let potentials = self.interactions_spec().pairs_spec(
                    self.kinds()[i as int],
                    self.kinds()[j as int],
                );
                &&& terms@ == terms_of(potentials, self.path_spec(i as int, j as int), potentials.len())
                &&& final(advisories)@ == if potentials.len() == 0 {
                    recorded(
                        old(advisories)@,
                        AdvisoryView {
                            category: Category::Pair,
                            names: canonical_pair_names(self.names()[i as int], self.names()[j as int]),
                        },
                    )
                } else {
                    old(advisories)@
                }
            }),
            final(advisories).well_formed(),
    {
        proof {
            self.lemma_well_formed();
        }
        let path = self.configuration().bond_path(i, j);
        let potentials = self.pair_potentials(i, j, advisories);
        let mut terms: Vec<PairTerm> = Vec::new();
        let mut p: usize = 0;
        while p < potentials.len()
            invariant
                p <= potentials.len(),
                terms@ == terms_of(potentials@, path, p as nat),
            decreases potentials.len() - p,
        {
            let info = potentials[p].restriction.information(path);
            if !info.excluded {
                terms.push(
                    PairTerm {
                        potential: potentials[p].potential,
                        cutoff: potentials[p].cutoff,
                        scaling: info.scaling,
                    },
                );
            }
            p += 1;
        }
        terms
    }

    /// What the coulombic potential asks for the particles `i` and `j`: a
    /// term in real space with its factor, the correction of the Ewald
    /// summation, or nothing.
    pub fn coulomb_term(&self, i: usize, j: usize) -> (term: CoulombTerm)
        requires
            self.well_formed(),
            i < self.names().len(),
            j < self.names().len(),
        ensures
            term == coulomb_term_of(
                self.interactions_spec().coulomb_spec(),
                self.path_spec(i as int, j as int),
            ),
    {
        proof {
            self.lemma_well_formed();
        }
        match self.coulomb_potential() {
            Some(coulomb) => {
                let info = coulomb.restriction.information(self.configuration().bond_path(i, j));
                if info.excluded {
                    match coulomb.solver {
                        CoulombicSolver::Ewald => CoulombTerm::Correction,
                        CoulombicSolver::Wolf => CoulombTerm::Nothing,
                    }
                } else {
                    CoulombTerm::RealSpace(info.scaling)
                }
            },
            None => CoulombTerm::Nothing,
        }
    }
}

} // verus!
