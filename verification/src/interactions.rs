//! The registry of interactions: for each tuple of kinds the potentials
//! that act on it, at most one coulombic potential, and the other global
//! potentials.

use vstd::prelude::*;
use crate::kinds::ParticleKind;
use crate::quantities::Length;
use crate::restrictions::PairRestriction;
use crate::table::{Key, KindTable};

verus! {

/// The handle of a potential. The caller keeps the function and its
/// parameters; the registry only says where each potential applies.
#[derive(Clone, Copy, Debug, PartialEq, Eq, Structural, Hash)]
pub struct PotentialId(pub u64);

/// A potential between two particles that are not bonded, with the pairs it
/// leaves out and the distance beyond which it is not computed.
#[derive(Clone, Copy, Debug, PartialEq, Eq, Structural, Hash)]
pub struct PairInteraction {
    pub potential: PotentialId,
    pub restriction: PairRestriction,
    pub cutoff: Length,
}

/// How the long-range electrostatic sum is computed.
#[derive(Clone, Copy, Debug, PartialEq, Eq, Structural, Hash)]
pub enum CoulombicSolver {
    /// A sum in reciprocal space, with a real-space correction.
    Ewald,
    /// A damped direct sum, truncated at the cutoff.
    Wolf,
}

/// The electrostatic potential of a system. A cutoff of `None` says that
/// the potential reaches every pair, however far apart.
#[derive(Clone, Copy, Debug, PartialEq, Eq, Structural, Hash)]
pub struct CoulombicPotential {
    pub solver: CoulombicSolver,
    pub potential: PotentialId,
    pub restriction: PairRestriction,
    pub cutoff: Option<Length>,
}

/// A potential that acts on the system as a whole. A cutoff of `None` says
/// that it has no finite range.
#[derive(Clone, Copy, Debug, PartialEq, Eq, Structural, Hash)]
pub struct GlobalPotential {
    pub potential: PotentialId,
    pub cutoff: Option<Length>,
}

/// The pair `(i, j)` with its smaller kind first.
pub open spec fn canonical_pair(i: ParticleKind, j: ParticleKind) -> (ParticleKind, ParticleKind) {
    if i.0 <= j.0 {
        (i, j)
    } else {
        (j, i)
    }
}

/// The angle `(i, j, k)` or its reverse: the one whose first kind is not
/// larger than its last.
pub open spec fn canonical_angle(i: ParticleKind, j: ParticleKind, k: ParticleKind) -> (
    ParticleKind,
    ParticleKind,
    ParticleKind,
) {
    if i.0 <= k.0 {
        (i, j, k)
    } else {
        (k, j, i)
    }
}

/// The larger of two numbers.
pub open spec fn larger(x: u32, y: u32) -> u32 {
    if x >= y {
        x
    } else {
        y
    }
}

/// The smaller of two numbers.
pub open spec fn smaller(x: u32, y: u32) -> u32 {
    if x <= y {
        x
    } else {
        y
    }
}

/// Whether the dihedral `(i, j, k, m)` is kept as it is rather than
/// reversed: the half with the smaller maximum comes first; with equal
/// maxima the half with the smaller minimum; with both equal the end with
/// the smaller kind.
pub open spec fn dihedral_in_order(i: u32, j: u32, k: u32, m: u32) -> bool {
    if larger(i, j) != larger(k, m) {
        larger(i, j) < larger(k, m)
    } else if smaller(i, j) != smaller(k, m) {
        smaller(i, j) < smaller(k, m)
    } else {
        i <= m
    }
}

/// The dihedral `(i, j, k, m)` or its reverse, whichever is in order.
pub open spec fn canonical_dihedral(
    i: ParticleKind,
    j: ParticleKind,
    k: ParticleKind,
    m: ParticleKind,
) -> (ParticleKind, ParticleKind, ParticleKind, ParticleKind) {
    if dihedral_in_order(i.0, j.0, k.0, m.0) {
        (i, j, k, m)
    } else {
        (m, k, j, i)
    }
}

/// The table key of a pair.
pub open spec fn pair_key(i: ParticleKind, j: ParticleKind) -> Key {
    let (a, b) = canonical_pair(i, j);
    (a.0, b.0, 0, 0)
}

/// The table key of an angle.
pub open spec fn angle_key(i: ParticleKind, j: ParticleKind, k: ParticleKind) -> Key {
    let (a, b, c) = canonical_angle(i, j, k);
    (a.0, b.0, c.0, 0)
}

/// The table key of a dihedral.
pub open spec fn dihedral_key(i: ParticleKind, j: ParticleKind, k: ParticleKind, m: ParticleKind) -> Key {
    let (a, b, c, d) = canonical_dihedral(i, j, k, m);
    (a.0, b.0, c.0, d.0)
}

/// A pair and its reverse have one canonical form.
pub proof fn lemma_canonical_pair_symmetric(i: ParticleKind, j: ParticleKind)
    ensures
        canonical_pair(i, j) == canonical_pair(j, i),
        canonical_pair(canonical_pair(i, j).0, canonical_pair(i, j).1) == canonical_pair(i, j),
{
}

/// An angle and its reverse have one canonical form.
pub proof fn lemma_canonical_angle_symmetric(i: ParticleKind, j: ParticleKind, k: ParticleKind)
    ensures
        canonical_angle(i, j, k) == canonical_angle(k, j, i),
        ({
            let (a, b, c) = canonical_angle(i, j, k);
            canonical_angle(a, b, c) == (a, b, c)
        }),
{
}

/// A dihedral and its reverse have one canonical form.
pub proof fn lemma_canonical_dihedral_symmetric(
    i: ParticleKind,
    j: ParticleKind,
    k: ParticleKind,
    m: ParticleKind,
)
    ensures
        canonical_dihedral(i, j, k, m) == canonical_dihedral(m, k, j, i),
        ({
            let (a, b, c, d) = canonical_dihedral(i, j, k, m);
            canonical_dihedral(a, b, c, d) == (a, b, c, d)
        }),
{
}

/// The pair `(i, j)` with its smaller kind first.
pub fn sort_pair(i: ParticleKind, j: ParticleKind) -> (sorted: (ParticleKind, ParticleKind))
    ensures
        sorted == canonical_pair(i, j),
{
    if i.0 <= j.0 {
        (i, j)
    } else {
        (j, i)
    }
}

/// The angle `(i, j, k)` in canonical form.
pub fn sort_angle(i: ParticleKind, j: ParticleKind, k: ParticleKind) -> (sorted: (
    ParticleKind,
    ParticleKind,
    ParticleKind,
))
    ensures
        sorted == canonical_angle(i, j, k),
{
    if i.0 <= k.0 {
        (i, j, k)
    } else {
        (k, j, i)
    }
}

/// The dihedral `(i, j, k, m)` in canonical form.
pub fn sort_dihedral(i: ParticleKind, j: ParticleKind, k: ParticleKind, m: ParticleKind) -> (sorted: (
    ParticleKind,
    ParticleKind,
    ParticleKind,
    ParticleKind,
))
    ensures
        sorted == canonical_dihedral(i, j, k, m),
{
    let max_ij: u32 = if i.0 >= j.0 { i.0 } else { j.0 };
    let max_km: u32 = if k.0 >= m.0 { k.0 } else { m.0 };
    let min_ij: u32 = if i.0 <= j.0 { i.0 } else { j.0 };
    let min_km: u32 = if k.0 <= m.0 { k.0 } else { m.0 };
    let in_order = if max_ij != max_km {
        max_ij < max_km
    } else if min_ij != min_km {
        min_ij < min_km
    } else {
        i.0 <= m.0
    };
    if in_order {
        (i, j, k, m)
    } else {
        (m, k, j, i)
    }
}

/// The larger of a length and the best length so far, if there is one.
fn larger_of(best: Option<Length>, length: Length) -> (longest: Length)
    ensures
        longest == match best {
            Some(other) => if other.0 >= length.0 {
                other
            } else {
                length
            },
            None => length,
        },
{
    match best {
        Some(other) => if other.0 >= length.0 {
            other
        } else {
            length
        },
        None => length,
    }
}

/// The potentials of a system, by the kinds they act on.
pub struct Interactions {
    pairs: KindTable<PairInteraction>,
    bonds: KindTable<PotentialId>,
    angles: KindTable<PotentialId>,
    dihedrals: KindTable<PotentialId>,
    coulomb: Option<CoulombicPotential>,
    globals: Vec<GlobalPotential>,
}

impl Interactions {
    /// Every table is well formed.
    pub closed spec fn well_formed(&self) -> bool {
        &&& self.pairs.well_formed()
        &&& self.bonds.well_formed()
        &&& self.angles.well_formed()
        &&& self.dihedrals.well_formed()
    }

    /// The pair potentials between the kinds `i` and `j`, in the order of
    /// their registration.
    pub closed spec fn pairs_spec(&self, i: ParticleKind, j: ParticleKind) -> Seq<PairInteraction> {
        self.pairs.lookup(pair_key(i, j))
    }

    /// The bond potentials between the kinds `i` and `j`.
    pub closed spec fn bonds_spec(&self, i: ParticleKind, j: ParticleKind) -> Seq<PotentialId> {
        self.bonds.lookup(pair_key(i, j))
    }

    /// The angle potentials of the kinds `(i, j, k)`.
    pub closed spec fn angles_spec(&self, i: ParticleKind, j: ParticleKind, k: ParticleKind) -> Seq<
        PotentialId,
    > {
        self.angles.lookup(angle_key(i, j, k))
    }

    /// The dihedral potentials of the kinds `(i, j, k, m)`.
    pub closed spec fn dihedrals_spec(
        &self,
        i: ParticleKind,
        j: ParticleKind,
        k: ParticleKind,
        m: ParticleKind,
    ) -> Seq<PotentialId> {
        self.dihedrals.lookup(dihedral_key(i, j, k, m))
    }

    /// The coulombic potential, if one is set.
    pub closed spec fn coulomb_spec(&self) -> Option<CoulombicPotential> {
        self.coulomb
    }

    /// The global potentials, in the order of their registration.
    pub closed spec fn globals_spec(&self) -> Seq<GlobalPotential> {
        self.globals@
    }

    /// All lists of pair potentials, one list for each canonical pair that
    /// has any.
    pub closed spec fn pair_lists(&self) -> Seq<Seq<PairInteraction>> {
        self.pairs.lists()
    }

    /// The lists of pair potentials are those that lookups give: each list
    /// belongs to a pair of kinds, and the potentials of every pair of kinds
    /// form one of the lists, unless there are none.
    pub proof fn lemma_pair_lists(&self)
        requires
            self.well_formed(),
        ensures
            forall|i: ParticleKind, j: ParticleKind|
                (#[trigger] self.pairs_spec(i, j)).len() > 0 ==> self.pair_lists().contains(
                    self.pairs_spec(i, j),
                ),
            forall|a: int|
                0 <= a < self.pair_lists().len() ==> (#[trigger] self.pair_lists()[a]).len() > 0,
    {
        self.pairs.lemma_well_formed();
        assert forall|i: ParticleKind, j: ParticleKind|
            (#[trigger] self.pairs_spec(i, j)).len() > 0 implies self.pair_lists().contains(
            self.pairs_spec(i, j),
        ) by {
            let key = pair_key(i, j);
            if !self.pairs.keys().contains(key) {
                assert(self.pairs.lookup(key).len() == 0);
            }
            let c = choose|c: int| 0 <= c < self.pairs.keys().len() && self.pairs.keys()[c] == key;
            assert(self.pairs.lookup(self.pairs.keys()[c]) == self.pairs.lists()[c]);
        }
    }

    /// No potential is registered.
    pub open spec fn is_empty(&self) -> bool {
        &&& forall|i: ParticleKind, j: ParticleKind| (#[trigger] self.pairs_spec(i, j)).len() == 0
        &&& forall|i: ParticleKind, j: ParticleKind| (#[trigger] self.bonds_spec(i, j)).len() == 0
        &&& forall|i: ParticleKind, j: ParticleKind, k: ParticleKind|
            (#[trigger] self.angles_spec(i, j, k)).len() == 0
        &&& forall|i: ParticleKind, j: ParticleKind, k: ParticleKind, m: ParticleKind|
            (#[trigger] self.dihedrals_spec(i, j, k, m)).len() == 0
        &&& self.coulomb_spec() is None
        &&& self.globals_spec().len() == 0
        &&& self.pair_lists().len() == 0
    }

    /// Both have the same pair potentials for every pair of kinds.
    pub open spec fn same_pairs(&self, other: Interactions) -> bool {
        forall|i: ParticleKind, j: ParticleKind| #[trigger]
            self.pairs_spec(i, j) == other.pairs_spec(i, j)
    }

    /// Both have the same bond potentials for every pair of kinds.
    pub open spec fn same_bonds(&self, other: Interactions) -> bool {
        forall|i: ParticleKind, j: ParticleKind| #[trigger]
            self.bonds_spec(i, j) == other.bonds_spec(i, j)
    }

    /// Both have the same angle potentials for every triple of kinds.
    pub open spec fn same_angles(&self, other: Interactions) -> bool {
        forall|i: ParticleKind, j: ParticleKind, k: ParticleKind| #[trigger]
            self.angles_spec(i, j, k) == other.angles_spec(i, j, k)
    }

    /// Both have the same dihedral potentials for every quadruple of kinds.
    pub open spec fn same_dihedrals(&self, other: Interactions) -> bool {
        forall|i: ParticleKind, j: ParticleKind, k: ParticleKind, m: ParticleKind| #[trigger]
            self.dihedrals_spec(i, j, k, m) == other.dihedrals_spec(i, j, k, m)
    }

    /// Both have the same coulombic and global potentials.
    pub open spec fn same_globals(&self, other: Interactions) -> bool {
        self.coulomb_spec() == other.coulomb_spec() && self.globals_spec() == other.globals_spec()
    }

    /// Whether some potential has the finite cutoff `length`, among the
    /// coulombic potential, the first `globals` global potentials, the first
    /// `lists` lists of pair potentials, and the first `pairs` potentials of
    /// the list after those.
    pub open spec fn has_cutoff_among(&self, length: Length, globals: int, lists: int, pairs: int) -> bool {
        ||| self.coulomb_spec() matches Some(coulomb) && coulomb.cutoff == Some(length)
        ||| exists|g: int|
            0 <= g < globals && (#[trigger] self.globals_spec()[g]).cutoff == Some(length)
        ||| exists|a: int, b: int|
            0 <= a < lists && 0 <= b < self.pair_lists()[a].len() && (#[trigger] self.pair_lists()[a][b]).cutoff
                == length
        ||| exists|b: int|
            0 <= b < pairs && (#[trigger] self.pair_lists()[lists][b]).cutoff == length
    }

    /// Whether some registered potential has the finite cutoff `length`.
    pub open spec fn has_cutoff(&self, length: Length) -> bool {
        self.has_cutoff_among(
            length,
            self.globals_spec().len() as int,
            self.pair_lists().len() as int,
            0,
        )
    }

    /// Whether the coulombic potential or a global potential has no finite
    /// range.
    pub open spec fn is_unbounded(&self) -> bool {
        ||| self.coulomb_spec() matches Some(coulomb) && coulomb.cutoff is None
        ||| exists|g: int|
            0 <= g < self.globals_spec().len() && (#[trigger] self.globals_spec()[g]).cutoff is None
    }

    /// Whether `maximum` is the largest cutoff among the first potentials,
    /// counted as in `has_cutoff_among`: `None` if they have no cutoff.
    pub open spec fn is_maximum_among(&self, maximum: Option<Length>, globals: int, lists: int, pairs: int) -> bool {
        match maximum {
            Some(longest) => self.has_cutoff_among(longest, globals, lists, pairs) && forall|
                length: Length,
            | #[trigger]
                self.has_cutoff_among(length, globals, lists, pairs) ==> length.0 <= longest.0,
            None => forall|length: Length| !#[trigger] self.has_cutoff_among(length, globals, lists, pairs),
        }
    }

    /// Whether `maximum` is the maximum cutoff of the interactions: `None`
    /// if a potential has no finite range or if no potential has a cutoff,
    /// and else the largest cutoff of any potential.
    pub open spec fn is_maximum_cutoff(&self, maximum: Option<Length>) -> bool {
        match maximum {
            Some(longest) => !self.is_unbounded() && self.has_cutoff(longest) && forall|
                length: Length,
            | #[trigger] self.has_cutoff(length) ==> length.0 <= longest.0,
            None => self.is_unbounded() || forall|length: Length| !#[trigger] self.has_cutoff(length),
        }
    }

    /// A list that has been read to its end counts as one more whole list.
    proof fn lemma_whole_list(&self, length: Length, globals: int, lists: int)
        requires
            0 <= lists < self.pair_lists().len(),
        ensures
            self.has_cutoff_among(length, globals, lists + 1, 0) == self.has_cutoff_among(
                length,
                globals,
                lists,
                self.pair_lists()[lists].len() as int,
            ),
    {
        let whole = self.pair_lists()[lists].len() as int;
        if self.has_cutoff_among(length, globals, lists + 1, 0) {
            if exists|a: int, b: int|
                0 <= a < lists + 1 && 0 <= b < self.pair_lists()[a].len() && (
                #[trigger] self.pair_lists()[a][b]).cutoff == length {
                let (a, b) = choose|a: int, b: int|
                    0 <= a < lists + 1 && 0 <= b < self.pair_lists()[a].len() && (
                    #[trigger] self.pair_lists()[a][b]).cutoff == length;
                if a == lists {
                    assert(0 <= b < whole && self.pair_lists()[lists][b].cutoff == length);
                } else {
                    assert(0 <= a < lists && self.pair_lists()[a][b].cutoff == length);
                }
            }
            assert(self.has_cutoff_among(length, globals, lists, whole));
        }
        if self.has_cutoff_among(length, globals, lists, whole) {
            if exists|b: int| 0 <= b < whole && (#[trigger] self.pair_lists()[lists][b]).cutoff == length {
                let b = choose|b: int|
                    0 <= b < whole && (#[trigger] self.pair_lists()[lists][b]).cutoff == length;
                assert(0 <= lists < lists + 1 && self.pair_lists()[lists][b].cutoff == length);
            } else if exists|a: int, b: int|
                0 <= a < lists && 0 <= b < self.pair_lists()[a].len() && (
                #[trigger] self.pair_lists()[a][b]).cutoff == length {
                let (a, b) = choose|a: int, b: int|
                    0 <= a < lists && 0 <= b < self.pair_lists()[a].len() && (
                    #[trigger] self.pair_lists()[a][b]).cutoff == length;
                assert(0 <= a < lists + 1 && self.pair_lists()[a][b].cutoff == length);
            }
            assert(self.has_cutoff_among(length, globals, lists + 1, 0));
        }
    }

    /// Interactions with no potential at all.
    pub fn new() -> (interactions: Interactions)
        ensures
            interactions.well_formed(),
            interactions.is_empty(),
    {
        let interactions = Interactions {
            pairs: KindTable::new(),
            bonds: KindTable::new(),
            angles: KindTable::new(),
            dihedrals: KindTable::new(),
            coulomb: None,
            globals: Vec::new(),
        };
        proof {
            interactions.pairs.lemma_well_formed();
        }
        interactions
    }

    /// Register `potential` between the kinds `i` and `j`, in either order.
    pub fn add_pair(&mut self, kinds: (ParticleKind, ParticleKind), potential: PairInteraction)
        requires
            old(self).well_formed(),
        ensures
            final(self).well_formed(),
            final(self).pairs_spec(kinds.0, kinds.1) == old(self).pairs_spec(kinds.0, kinds.1).push(
                potential,
            ),
            forall|i: ParticleKind, j: ParticleKind|
                canonical_pair(i, j) != canonical_pair(kinds.0, kinds.1) ==> #[trigger] final(self).pairs_spec(i, j) == old(self).pairs_spec(i, j),
            final(self).same_bonds(*old(self)),
            final(self).same_angles(*old(self)),
            final(self).same_dihedrals(*old(self)),
            final(self).same_globals(*old(self)),
            forall|length: Length| #[trigger]
                final(self).has_cutoff(length) <==> (old(self).has_cutoff(length) || length
                    == potential.cutoff),
    {
        let (a, b) = sort_pair(kinds.0, kinds.1);
        let ghost key = (a.0, b.0, 0u32, 0u32);
        self.pairs.add((a.0, b.0, 0, 0), potential);
        proof {
            old(self).pairs.lemma_well_formed();
            let before = old(self).pair_lists();
            let after = self.pair_lists();
            let at = if old(self).pairs.keys().contains(key) {
                crate::table::key_position(old(self).pairs.keys(), key)->0
            } else {
                before.len() as int
            };
            if old(self).pairs.keys().contains(key) {
                let c = choose|c: int|
                    0 <= c < old(self).pairs.keys().len() && old(self).pairs.keys()[c] == key;
                assert(old(self).pairs.lookup(old(self).pairs.keys()[c]) == before[c]);
            }
            let grown = if at < before.len() {
                before[at]
            } else {
                Seq::empty()
            };
            assert(after.len() > at && after[at] == grown.push(potential));
            assert forall|x: int, y: int| 0 <= x < before.len() && 0 <= y < before[x].len() implies x
                < after.len() && y < after[x].len() && after[x][y] == before[x][y] by {}
            assert forall|x: int, y: int|
                0 <= x < after.len() && 0 <= y < after[x].len() && !(x == at && y
                    == grown.len()) implies x < before.len() && y < before[x].len() && after[x][y]
                == before[x][y] by {}
            assert forall|length: Length| #[trigger]
                self.has_cutoff(length) <==> (old(self).has_cutoff(length) || length
                    == potential.cutoff) by {
                let globals = self.globals_spec().len() as int;
                if self.has_cutoff(length) && !old(self).has_cutoff(length) {
                    let (x, y) = choose|x: int, y: int|
                        0 <= x < after.len() && 0 <= y < after[x].len() && (#[trigger] after[x][y]).cutoff
                            == length;
                    if !(x == at && y == grown.len()) {
                        assert(before[x][y].cutoff == length);
                    }
                }
                if old(self).has_cutoff(length) && !self.has_cutoff(length) {
                    let (x, y) = choose|x: int, y: int|
                        0 <= x < before.len() && 0 <= y < before[x].len() && (
                        #[trigger] before[x][y]).cutoff == length;
                    assert(after[x][y].cutoff == length);
                }
                if length == potential.cutoff {
                    assert(after[at][grown.len() as int].cutoff == length);
                }
            }
        }
    }

    /// Register `potential` for bonds between the kinds `i` and `j`.
    pub fn add_bond(&mut self, kinds: (ParticleKind, ParticleKind), potential: PotentialId)
        requires
            old(self).well_formed(),
        ensures
            final(self).well_formed(),
            final(self).bonds_spec(kinds.0, kinds.1) == old(self).bonds_spec(kinds.0, kinds.1).push(
                potential,
            ),
            forall|i: ParticleKind, j: ParticleKind|
                canonical_pair(i, j) != canonical_pair(kinds.0, kinds.1) ==> #[trigger] final(self).bonds_spec(i, j) == old(self).bonds_spec(i, j),
            final(self).same_pairs(*old(self)),
            final(self).same_angles(*old(self)),
            final(self).same_dihedrals(*old(self)),
            final(self).same_globals(*old(self)),
            final(self).pair_lists() == old(self).pair_lists(),
    {
        let (a, b) = sort_pair(kinds.0, kinds.1);
        self.bonds.add((a.0, b.0, 0, 0), potential);
    }

    /// Register `potential` for angles of the kinds `(i, j, k)`.
    pub fn add_angle(&mut self, kinds: (ParticleKind, ParticleKind, ParticleKind), potential: PotentialId)
        requires
            old(self).well_formed(),
        ensures
            final(self).well_formed(),
            final(self).angles_spec(kinds.0, kinds.1, kinds.2) == old(self).angles_spec(
                kinds.0,
                kinds.1,
                kinds.2,
            ).push(potential),
            forall|i: ParticleKind, j: ParticleKind, k: ParticleKind|
                canonical_angle(i, j, k) != canonical_angle(kinds.0, kinds.1, kinds.2)
                    ==> #[trigger] final(self).angles_spec(i, j, k) == old(self).angles_spec(i, j, k),
            final(self).same_pairs(*old(self)),
            final(self).same_bonds(*old(self)),
            final(self).same_dihedrals(*old(self)),
            final(self).same_globals(*old(self)),
            final(self).pair_lists() == old(self).pair_lists(),
    {
        let (a, b, c) = sort_angle(kinds.0, kinds.1, kinds.2);
        self.angles.add((a.0, b.0, c.0, 0), potential);
    }

    /// Register `potential` for dihedrals of the kinds `(i, j, k, m)`.
    pub fn add_dihedral(
        &mut self,
        kinds: (ParticleKind, ParticleKind, ParticleKind, ParticleKind),
        potential: PotentialId,
    )
        requires
            old(self).well_formed(),
        ensures
            final(self).well_formed(),
            final(self).dihedrals_spec(kinds.0, kinds.1, kinds.2, kinds.3) == old(self).dihedrals_spec(kinds.0, kinds.1, kinds.2, kinds.3).push(potential),
            forall|i: ParticleKind, j: ParticleKind, k: ParticleKind, m: ParticleKind|
                canonical_dihedral(i, j, k, m) != canonical_dihedral(
                    kinds.0,
                    kinds.1,
                    kinds.2,
                    kinds.3,
                ) ==> #[trigger] final(self).dihedrals_spec(i, j, k, m) == old(self).dihedrals_spec(
                    i,
                    j,
                    k,
                    m,
                ),
            final(self).same_pairs(*old(self)),
            final(self).same_bonds(*old(self)),
            final(self).same_angles(*old(self)),
            final(self).same_globals(*old(self)),
            final(self).pair_lists() == old(self).pair_lists(),
    {
        let (a, b, c, d) = sort_dihedral(kinds.0, kinds.1, kinds.2, kinds.3);
        self.dihedrals.add((a.0, b.0, c.0, d.0), potential);
    }

    /// Make `potential` the coulombic potential, in place of any other.
    pub fn set_coulomb(&mut self, potential: CoulombicPotential)
        ensures
            final(self).coulomb_spec() == Some(potential),
            final(self).well_formed() == old(self).well_formed(),
            final(self).globals_spec() == old(self).globals_spec(),
            final(self).pair_lists() == old(self).pair_lists(),
            final(self).same_pairs(*old(self)),
            final(self).same_bonds(*old(self)),
            final(self).same_angles(*old(self)),
            final(self).same_dihedrals(*old(self)),
    {
        self.coulomb = Some(potential);
    }

    /// Add `potential` to the global potentials.
    pub fn add_global(&mut self, potential: GlobalPotential)
        ensures
            final(self).globals_spec() == old(self).globals_spec().push(potential),
            final(self).well_formed() == old(self).well_formed(),
            final(self).coulomb_spec() == old(self).coulomb_spec(),
            final(self).pair_lists() == old(self).pair_lists(),
            final(self).same_pairs(*old(self)),
            final(self).same_bonds(*old(self)),
            final(self).same_angles(*old(self)),
            final(self).same_dihedrals(*old(self)),
    {
        self.globals.push(potential);
    }

    /// The pair potentials between the kinds `i` and `j`: an empty list if
    /// none was registered.
    pub fn pairs(&self, kinds: (ParticleKind, ParticleKind)) -> (list: &[PairInteraction])
        requires
            self.well_formed(),
        ensures
            list@ == self.pairs_spec(kinds.0, kinds.1),
    {
        let (a, b) = sort_pair(kinds.0, kinds.1);
        self.pairs.get((a.0, b.0, 0, 0)).as_slice()
    }

    /// The bond potentials between the kinds `i` and `j`.
    pub fn bonds(&self, kinds: (ParticleKind, ParticleKind)) -> (list: &[PotentialId])
        requires
            self.well_formed(),
        ensures
            list@ == self.bonds_spec(kinds.0, kinds.1),
    {
        let (a, b) = sort_pair(kinds.0, kinds.1);
        self.bonds.get((a.0, b.0, 0, 0)).as_slice()
    }

    /// The angle potentials of the kinds `(i, j, k)`.
    pub fn angles(&self, kinds: (ParticleKind, ParticleKind, ParticleKind)) -> (list: &[PotentialId])
        requires
            self.well_formed(),
        ensures
            list@ == self.angles_spec(kinds.0, kinds.1, kinds.2),
    {
        let (a, b, c) = sort_angle(kinds.0, kinds.1, kinds.2);
        self.angles.get((a.0, b.0, c.0, 0)).as_slice()
    }

    /// The dihedral potentials of the kinds `(i, j, k, m)`.
    pub fn dihedrals(&self, kinds: (ParticleKind, ParticleKind, ParticleKind, ParticleKind)) -> (list:
        &[PotentialId])
        requires
            self.well_formed(),
        ensures
            list@ == self.dihedrals_spec(kinds.0, kinds.1, kinds.2, kinds.3),
    {
        let (a, b, c, d) = sort_dihedral(kinds.0, kinds.1, kinds.2, kinds.3);
        self.dihedrals.get((a.0, b.0, c.0, d.0)).as_slice()
    }

    /// The maximum cutoff of the interactions: `None` if a potential has no
    /// finite range or if no potential has a cutoff, and else the largest
    /// cutoff of the coulombic, global and pair potentials.
    pub fn maximum_cutoff(&self) -> (maximum: Option<Length>)
        requires
            self.well_formed(),
        ensures
            self.is_maximum_cutoff(maximum),
    {
        let mut best: Option<Length> = None;
        if let Some(coulomb) = self.coulomb {
            match coulomb.cutoff {
                Some(length) => {
                    best = Some(length);
                },
                None => {
                    return None;
                },
            }
        }
        let mut g: usize = 0;
        while g < self.globals.len()
            invariant
                g <= self.globals.len(),
                self.is_maximum_among(best, g as int, 0, 0),
                !(self.coulomb_spec() matches Some(coulomb) && coulomb.cutoff is None),
                forall|h: int| 0 <= h < g ==> (#[trigger] self.globals_spec()[h]).cutoff is Some,
            decreases self.globals.len() - g,
        {
            match self.globals[g].cutoff {
                Some(length) => {
                    let ghost before = best;
                    best = Some(larger_of(best, length));
                    proof {
                        let longest = best->0;
                        assert(self.globals_spec()[g as int].cutoff == Some(length));
                        if longest == length {
                            assert(self.has_cutoff_among(longest, g + 1, 0, 0));
                        } else {
                            assert(self.has_cutoff_among(longest, g as int, 0, 0));
                        }
                        assert forall|other: Length| #[trigger]
                            self.has_cutoff_among(other, g + 1, 0, 0) implies other.0
                            <= longest.0 by {
                            if !self.has_cutoff_among(other, g as int, 0, 0) {
                                let h = choose|h: int|
                                    0 <= h < g + 1 && (#[trigger] self.globals_spec()[h]).cutoff
                                        == Some(other);
                                assert(h == g);
                            }
                        }
                    }
                },
                None => {
                    return None;
                },
            }
            g += 1;
        }
        proof {
            self.pairs.lemma_well_formed();
        }
        let count = self.pairs.len();
        let mut a: usize = 0;
        while a < count
            invariant
                self.well_formed(),
                count == self.pair_lists().len(),
                count == self.pairs.keys().len(),
                a <= count,
                !self.is_unbounded(),
                self.is_maximum_among(best, self.globals_spec().len() as int, a as int, 0),
            decreases count - a,
        {
            let list = self.pairs.list(a);
            let mut b: usize = 0;
            while b < list.len()
                invariant
                    a < self.pair_lists().len(),
                    list@ == self.pair_lists()[a as int],
                    b <= list.len(),
                    self.is_maximum_among(best, self.globals_spec().len() as int, a as int, b as int),
                decreases list.len() - b,
            {
                let length = list[b].cutoff;
                let ghost globals = self.globals_spec().len() as int;
                best = Some(larger_of(best, length));
                proof {
                    let longest = best->0;
                    assert(self.pair_lists()[a as int][b as int].cutoff == length);
                    if longest == length {
                        assert(self.has_cutoff_among(longest, globals, a as int, b + 1));
                    } else {
                        assert(self.has_cutoff_among(longest, globals, a as int, b as int));
                    }
                    assert forall|other: Length| #[trigger]
                        self.has_cutoff_among(other, globals, a as int, b + 1) implies other.0
                        <= longest.0 by {
                        if !self.has_cutoff_among(other, globals, a as int, b as int) {
                            let c = choose|c: int|
                                0 <= c < b + 1 && (#[trigger] self.pair_lists()[a as int][c]).cutoff
                                    == other;
                            assert(c == b);
                        }
                    }
                }
                b += 1;
            }
            proof {
                let globals = self.globals_spec().len() as int;
                assert forall|other: Length| #[trigger]
                    self.has_cutoff_among(other, globals, a + 1, 0) == self.has_cutoff_among(
                        other,
                        globals,
                        a as int,
                        b as int,
                    ) by {
                    self.lemma_whole_list(other, globals, a as int);
                }
                assert(self.is_maximum_among(best, globals, a + 1, 0));
            }
            a += 1;
        }
        best
    }

    /// The coulombic potential, if one is set.
    pub fn coulomb(&self) -> (potential: Option<CoulombicPotential>)
        ensures
            potential == self.coulomb_spec(),
    {
        self.coulomb
    }

    /// The global potentials, in the order of their registration.
    pub fn globals(&self) -> (list: &[GlobalPotential])
        ensures
            list@ == self.globals_spec(),
    {
        self.globals.as_slice()
    }
}

/// A potential registered between two kinds is found under both orders of
/// the pair, and a bond, angle or dihedral under the tuple and its reverse.
pub proof fn lemma_lookup_symmetric(
    interactions: Interactions,
    i: ParticleKind,
    j: ParticleKind,
    k: ParticleKind,
    m: ParticleKind,
)
    ensures
        interactions.pairs_spec(i, j) == interactions.pairs_spec(j, i),
        interactions.bonds_spec(i, j) == interactions.bonds_spec(j, i),
        interactions.angles_spec(i, j, k) == interactions.angles_spec(k, j, i),
        interactions.dihedrals_spec(i, j, k, m) == interactions.dihedrals_spec(m, k, j, i),
{
    lemma_canonical_pair_symmetric(i, j);
    lemma_canonical_angle_symmetric(i, j, k);
    lemma_canonical_dihedral_symmetric(i, j, k, m);
}

} // verus!
