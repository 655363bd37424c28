//! Pair restrictions: which pairs of particles an interaction leaves out or
//! scales down, from where the two particles sit in the bond graph.

use vstd::prelude::*;
use crate::quantities::Scaling;

verus! {

/// How two particles are connected.
#[derive(Clone, Copy, Debug, PartialEq, Eq, Structural, Hash)]
pub enum BondPath {
    /// The particles are in different molecules.
    Unconnected,
    /// Both are the same particle: distance zero.
    SameParticle,
    /// One bond joins them.
    OneBond,
    /// The shortest path between them has two bonds.
    TwoBonds,
    /// The shortest path between them has three bonds.
    ThreeBonds,
    /// They are in one molecule, more than three bonds apart.
    Far,
}

impl BondPath {
    /// The two particles are in one molecule.
    pub open spec fn same_molecule(&self) -> bool {
        !(self is Unconnected)
    }

    /// The two particles are in one molecule, at most `bonds` bonds apart.
    pub open spec fn within(&self, bonds: nat) -> bool {
        match self {
            BondPath::Unconnected => false,
            BondPath::SameParticle => true,
            BondPath::OneBond => bonds >= 1,
            BondPath::TwoBonds => bonds >= 2,
            BondPath::ThreeBonds => bonds >= 3,
            BondPath::Far => false,
        }
    }
}

/// A policy that leaves out or scales the interaction of some pairs.
#[derive(Clone, Copy, Debug, PartialEq, Eq, Structural, Hash)]
pub enum PairRestriction {
    /// Every pair interacts.
    Unrestricted,
    /// Only pairs within one molecule interact.
    IntraMolecular,
    /// Only pairs from different molecules interact.
    InterMolecular,
    /// Pairs joined by a bond do not interact.
    Exclude12,
    /// Pairs at most two bonds apart do not interact.
    Exclude13,
    /// Pairs at most three bonds apart do not interact.
    Exclude14,
    /// Pairs at most two bonds apart do not interact, and pairs three bonds
    /// apart interact with the given factor.
    Scale14(Scaling),
}

/// What a restriction says of one pair.
#[derive(Clone, Copy, Debug, PartialEq, Eq, Structural, Hash)]
pub struct RestrictionInfo {
    /// The pair does not interact.
    pub excluded: bool,
    /// The factor that multiplies the interaction of the pair.
    pub scaling: Scaling,
}

impl RestrictionInfo {
    /// The factor with which the pair counts: none for an excluded pair.
    pub open spec fn weight(&self) -> Option<Scaling> {
        if self.excluded {
            None
        } else {
            Some(self.scaling)
        }
    }
}

impl PairRestriction {
    /// The scaling factor, if any, is at most one.
    pub open spec fn well_formed(&self) -> bool {
        self matches PairRestriction::Scale14(scaling) ==> scaling.well_formed()
    }

    /// Whether the restriction leaves out a pair connected by `path`.
    pub open spec fn excludes(&self, path: BondPath) -> bool {
        match self {
            PairRestriction::Unrestricted => false,
            PairRestriction::IntraMolecular => !path.same_molecule(),
            PairRestriction::InterMolecular => path.same_molecule(),
            PairRestriction::Exclude12 => path.within(1),
            PairRestriction::Exclude13 => path.within(2),
            PairRestriction::Exclude14 => path.within(3),
            PairRestriction::Scale14(_) => path.within(2),
        }
    }

    /// The factor that the restriction gives a pair connected by `path`.
    pub open spec fn scaling_spec(&self, path: BondPath) -> Scaling {
        match self {
            PairRestriction::Scale14(scaling) if path is ThreeBonds => *scaling,
            _ => Scaling::full_spec(),
        }
    }

    /// What the restriction says of a pair connected by `path`.
    pub open spec fn information_spec(&self, path: BondPath) -> RestrictionInfo {
        RestrictionInfo { excluded: self.excludes(path), scaling: self.scaling_spec(path) }
    }

    /// Whether the restriction leaves out a pair connected by `path`.
    #[verifier::when_used_as_spec(excludes)]
    pub fn is_excluded_pair(&self, path: BondPath) -> (excluded: bool)
        ensures
            excluded == self.excludes(path),
    {
        let apart: u8 = match path {
            BondPath::Unconnected => {
                return match self {
                    PairRestriction::IntraMolecular => true,
                    _ => false,
                };
            },
            BondPath::SameParticle => 0,
            BondPath::OneBond => 1,
            BondPath::TwoBonds => 2,
            BondPath::ThreeBonds => 3,
            BondPath::Far => 4,
        };
        match self {
            PairRestriction::Unrestricted => false,
            PairRestriction::IntraMolecular => false,
            PairRestriction::InterMolecular => true,
            PairRestriction::Exclude12 => apart <= 1,
            PairRestriction::Exclude13 => apart <= 2,
            PairRestriction::Exclude14 => apart <= 3,
            PairRestriction::Scale14(_) => apart <= 2,
        }
    }

    /// The factor that the restriction gives a pair connected by `path`.
    #[verifier::when_used_as_spec(scaling_spec)]
    pub fn scaling(&self, path: BondPath) -> (scaling: Scaling)
        ensures
            scaling == self.scaling_spec(path),
    {
        match (self, path) {
            (PairRestriction::Scale14(scaling), BondPath::ThreeBonds) => *scaling,
            _ => Scaling::full(),
        }
    }

    /// What the restriction says of a pair connected by `path`.
    #[verifier::when_used_as_spec(information_spec)]
    pub fn information(&self, path: BondPath) -> (info: RestrictionInfo)
        ensures
            info == self.information_spec(path),
    {
        RestrictionInfo { excluded: self.is_excluded_pair(path), scaling: self.scaling(path) }
    }
}

/// Particles of different molecules interact at full weight under every
/// restriction but the intramolecular one, which leaves them out.
pub proof fn lemma_different_molecules(restriction: PairRestriction)
    ensures
        restriction.information_spec(BondPath::Unconnected).weight() == if restriction is IntraMolecular {
            None
        } else {
            Some(Scaling::full_spec())
        },
{
}

/// Within one molecule, each restriction leaves out exactly the pairs up to
/// its own distance; a pair that stays counts at full weight, except that
/// under `Scale14` a pair three bonds apart counts with the given factor.
pub proof fn lemma_same_molecule(restriction: PairRestriction, path: BondPath)
    requires
        path.same_molecule(),
    ensures
        restriction.information_spec(path).weight() == match restriction {
            PairRestriction::Unrestricted => Some(Scaling::full_spec()),
            PairRestriction::IntraMolecular => Some(Scaling::full_spec()),
            PairRestriction::InterMolecular => None,
            PairRestriction::Exclude12 => if path.within(1) {
                None
            } else {
                Some(Scaling::full_spec())
            },
            PairRestriction::Exclude13 => if path.within(2) {
                None
            } else {
                Some(Scaling::full_spec())
            },
            PairRestriction::Exclude14 => if path.within(3) {
                None
            } else {
                Some(Scaling::full_spec())
            },
            PairRestriction::Scale14(scaling) => if path.within(2) {
                None
            } else if path is ThreeBonds {
                Some(scaling)
            } else {
                Some(Scaling::full_spec())
            },
        },
{
}

} // verus!
