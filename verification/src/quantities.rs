//! Exact quantities: lengths and scaling factors as whole numbers of a
//! fixed quantum, and the lengths of a unit cell.

use vstd::prelude::*;

verus! {

/// A non-negative length, as a whole number of length quanta. The quantum is
/// the caller's choice; one choice serves a whole system.
#[derive(Clone, Copy, Debug, PartialEq, Eq, Structural, Hash)]
pub struct Length(pub u64);

/// A temperature, as a whole number of temperature quanta above absolute
/// zero. A negative number is no temperature; the type can hold one so that
/// it can be refused.
#[derive(Clone, Copy, Debug, PartialEq, Eq, Structural, Hash)]
pub struct Temperature(pub i64);

/// The number of parts that make a scaling factor of one.
pub const SCALING_UNIT: u32 = 1_000_000_000;

/// A factor between zero and one, in billionths.
#[derive(Clone, Copy, Debug, PartialEq, Eq, Structural, Hash)]
pub struct Scaling(pub u32);

impl Scaling {
    /// The factor is at most one.
    pub open spec fn well_formed(&self) -> bool {
        self.0 <= SCALING_UNIT
    }

    /// The factor one.
    pub open spec fn full_spec() -> Scaling {
        Scaling(SCALING_UNIT)
    }

    /// The factor one.
    #[verifier::when_used_as_spec(full_spec)]
    pub fn full() -> (scaling: Scaling)
        ensures
            scaling == Scaling::full_spec(),
    {
        Scaling(SCALING_UNIT)
    }

    /// The factor of `billionths` parts in a billion, if that is at most one.
    pub fn new(billionths: u32) -> (scaling: Option<Scaling>)
        ensures
            scaling == if billionths <= SCALING_UNIT {
                Some(Scaling(billionths))
            } else {
                None
            },
    {
        if billionths <= SCALING_UNIT {
            Some(Scaling(billionths))
        } else {
            None
        }
    }
}

/// The shape of a unit cell.
#[derive(Clone, Copy, Debug, PartialEq, Eq, Structural, Hash)]
pub enum CellShape {
    /// No boundaries: the cell extends without limit along every axis.
    Infinite,
    /// Three right angles.
    Orthorhombic,
    /// Any angles.
    Triclinic,
}

/// The box that holds a system: its shape and the lengths of its three
/// edges. The lengths of an infinite cell are not read.
#[derive(Clone, Copy, Debug, PartialEq, Eq, Structural, Hash)]
pub struct UnitCell {
    pub shape: CellShape,
    pub a: Length,
    pub b: Length,
    pub c: Length,
}

/// Whether an edge of length `edge` is too short for `cutoff`: half of the
/// edge is less than the cutoff.
pub open spec fn edge_too_short(edge: Length, cutoff: Length) -> bool {
    edge.0 < 2 * cutoff.0
}

impl UnitCell {
    /// Whether `cutoff` is at most half of every edge, so that under the
    /// minimum-image convention no pair is counted twice. An infinite cell
    /// admits every cutoff.
    pub open spec fn admits_spec(&self, cutoff: Length) -> bool {
        self.shape is Infinite || !(edge_too_short(self.a, cutoff) || edge_too_short(
            self.b,
            cutoff,
        ) || edge_too_short(self.c, cutoff))
    }

    /// An infinite cell; its edges, which are not read, are zero.
    pub fn new() -> (cell: UnitCell)
        ensures
            cell == UnitCell::new_spec(),
            cell.shape is Infinite,
    {
        UnitCell { shape: CellShape::Infinite, a: Length(0), b: Length(0), c: Length(0) }
    }

    /// The infinite cell that `new` gives.
    pub open spec fn new_spec() -> UnitCell {
        UnitCell { shape: CellShape::Infinite, a: Length(0), b: Length(0), c: Length(0) }
    }

    /// A cube of edge `length`.
    pub fn cubic(length: Length) -> (cell: UnitCell)
        ensures
            cell == (UnitCell { shape: CellShape::Orthorhombic, a: length, b: length, c: length }),
    {
        UnitCell { shape: CellShape::Orthorhombic, a: length, b: length, c: length }
    }

    /// A cell with right angles and the edges `a`, `b`, `c`.
    pub fn ortho(a: Length, b: Length, c: Length) -> (cell: UnitCell)
        ensures
            cell == (UnitCell { shape: CellShape::Orthorhombic, a, b, c }),
    {
        UnitCell { shape: CellShape::Orthorhombic, a, b, c }
    }

    /// A cell with the edges `a`, `b`, `c` and angles that the caller keeps.
    pub fn triclinic(a: Length, b: Length, c: Length) -> (cell: UnitCell)
        ensures
            cell == (UnitCell { shape: CellShape::Triclinic, a, b, c }),
    {
        UnitCell { shape: CellShape::Triclinic, a, b, c }
    }

    /// Whether the cell has no boundaries.
    pub fn is_infinite(&self) -> (infinite: bool)
        ensures
            infinite == (self.shape is Infinite),
    {
        match self.shape {
            CellShape::Infinite => true,
            _ => false,
        }
    }

    /// Whether `cutoff` is at most half of every edge of the cell.
    #[verifier::when_used_as_spec(admits_spec)]
    pub fn admits(&self, cutoff: Length) -> (admitted: bool)
        ensures
            admitted == self.admits_spec(cutoff),
    {
        if self.is_infinite() {
            return true;
        }
        !(half_is_less(self.a, cutoff) || half_is_less(self.b, cutoff) || half_is_less(
            self.c,
            cutoff,
        ))
    }
}

/// The shortest edge of a cell with the edges `a`, `b` and `c`.
pub open spec fn shortest_edge(a: Length, b: Length, c: Length) -> Length {
    if a.0 <= b.0 && a.0 <= c.0 {
        a
    } else if b.0 <= c.0 {
        b
    } else {
        c
    }
}

/// A cell with boundaries admits a cutoff exactly if the cutoff is at most
/// half of its shortest edge: a cutoff beyond that is never admitted.
pub proof fn lemma_admits_up_to_half_of_shortest_edge(cell: UnitCell, cutoff: Length)
    requires
        !(cell.shape is Infinite),
    ensures
        cell.admits_spec(cutoff) <==> 2 * cutoff.0 <= shortest_edge(cell.a, cell.b, cell.c).0,
{
}

/// Whether half of `edge` is less than `cutoff`, computed without overflow.
pub fn half_is_less(edge: Length, cutoff: Length) -> (less: bool)
    ensures
        less == edge_too_short(edge, cutoff),
{
    // edge < 2 * cutoff  <=>  edge / 2 < cutoff, for whole numbers
    edge.0 / 2 < cutoff.0
}

} // verus!
