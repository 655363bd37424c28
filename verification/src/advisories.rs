//! Advisories: what a lookup reports when no potential is registered for a
//! tuple of particles, each tuple once however often it is looked up.

use vstd::prelude::*;
use vstd::string::*;
use crate::names::{lemma_name_order, name_before, name_lt, same_name};

verus! {

/// The kind of interaction that an advisory is about.
#[derive(Clone, Copy, Debug, PartialEq, Eq, Structural, Hash)]
pub enum Category {
    Pair,
    Bond,
    Angle,
    Dihedral,
}

/// The pair of names `(i, j)` in canonical order: the one that comes first
/// in the order of names stands first.
pub open spec fn canonical_pair_names(i: Seq<char>, j: Seq<char>) -> Seq<Seq<char>> {
    if name_lt(i, j) {
        seq![i, j]
    } else {
        seq![j, i]
    }
}

/// The names of an angle or their reverse: the end that comes first in the
/// order of names stands first.
pub open spec fn canonical_angle_names(i: Seq<char>, j: Seq<char>, k: Seq<char>) -> Seq<Seq<char>> {
    if name_lt(i, k) {
        seq![i, j, k]
    } else {
        seq![k, j, i]
    }
}

/// Of two names, the one that comes later.
pub open spec fn later_name(a: Seq<char>, b: Seq<char>) -> Seq<char> {
    if name_lt(a, b) {
        b
    } else {
        a
    }
}

/// Of two names, the one that comes earlier.
pub open spec fn earlier_name(a: Seq<char>, b: Seq<char>) -> Seq<char> {
    if name_lt(b, a) {
        b
    } else {
        a
    }
}

/// Whether the names of a dihedral are kept as they are rather than
/// reversed: the half whose later name comes first stands first; if both
/// halves have the same later name, the half whose earlier name comes
/// first; if those are the same too, the end that comes first.
pub open spec fn dihedral_names_in_order(i: Seq<char>, j: Seq<char>, k: Seq<char>, m: Seq<char>) -> bool {
    if later_name(i, j) != later_name(k, m) {
        name_lt(later_name(i, j), later_name(k, m))
    } else if earlier_name(i, j) != earlier_name(k, m) {
        name_lt(earlier_name(i, j), earlier_name(k, m))
    } else {
        !name_lt(m, i)
    }
}

/// The names of a dihedral or their reverse, whichever is in order.
pub open spec fn canonical_dihedral_names(
    i: Seq<char>,
    j: Seq<char>,
    k: Seq<char>,
    m: Seq<char>,
) -> Seq<Seq<char>> {
    if dihedral_names_in_order(i, j, k, m) {
        seq![i, j, k, m]
    } else {
        seq![m, k, j, i]
    }
}

/// A tuple of names and its reverse have the same canonical order.
pub proof fn lemma_canonical_names_symmetric(i: Seq<char>, j: Seq<char>, k: Seq<char>, m: Seq<char>)
    ensures
        canonical_pair_names(i, j) == canonical_pair_names(j, i),
        canonical_angle_names(i, j, k) == canonical_angle_names(k, j, i),
        canonical_dihedral_names(i, j, k, m) == canonical_dihedral_names(m, k, j, i),
{
    lemma_name_order(i, j);
    lemma_name_order(j, i);
    lemma_name_order(i, k);
    lemma_name_order(k, i);
    lemma_name_order(k, m);
    lemma_name_order(m, k);
    lemma_name_order(i, m);
    lemma_name_order(m, i);
    lemma_name_order(later_name(i, j), later_name(k, m));
    lemma_name_order(later_name(k, m), later_name(i, j));
    lemma_name_order(earlier_name(i, j), earlier_name(k, m));
    lemma_name_order(earlier_name(k, m), earlier_name(i, j));
    assert(later_name(i, j) == later_name(j, i));
    assert(later_name(k, m) == later_name(m, k));
    assert(earlier_name(i, j) == earlier_name(j, i));
    assert(earlier_name(k, m) == earlier_name(m, k));
    if dihedral_names_in_order(i, j, k, m) && dihedral_names_in_order(m, k, j, i) {
        // both ends come first: every name equals its mirror image
        assert(i == m);
        assert(j == k);
    }
    assert(canonical_pair_names(i, j) =~= canonical_pair_names(j, i));
    assert(canonical_angle_names(i, j, k) =~= canonical_angle_names(k, j, i));
    assert(canonical_dihedral_names(i, j, k, m) =~= canonical_dihedral_names(m, k, j, i));
}

/// What an advisory says: no potential is registered for an interaction of
/// `category` between particles of these names, given in canonical order.
pub struct AdvisoryView {
    pub category: Category,
    pub names: Seq<Seq<char>>,
}

/// A report that no potential is registered for a tuple of particles.
pub struct Advisory {
    category: Category,
    names: Vec<String>,
}

/// The first `count` names, separated by a comma and a space.
pub open spec fn joined(names: Seq<Seq<char>>, count: nat) -> Seq<char>
    decreases count,
{
    if count == 0 {
        Seq::empty()
    } else if count == 1 {
        names[0]
    } else {
        joined(names, (count - 1) as nat) + ", "@ + names[count - 1]
    }
}

/// How a category is called in a message.
pub open spec fn label(category: Category) -> Seq<char> {
    match category {
        Category::Pair => "pair"@,
        Category::Bond => "bond"@,
        Category::Angle => "angle"@,
        Category::Dihedral => "dihedral angle"@,
    }
}

/// The text of an advisory.
pub open spec fn message_of(advisory: AdvisoryView) -> Seq<char> {
    "No potential defined for the "@ + label(advisory.category) + " ("@ + joined(
        advisory.names,
        advisory.names.len(),
    ) + ")"@
}

impl View for Advisory {
    type V = AdvisoryView;

    closed spec fn view(&self) -> AdvisoryView {
        AdvisoryView {
            category: self.category,
            names: Seq::new(self.names@.len(), |i: int| self.names@[i]@),
        }
    }
}

impl Advisory {
    /// No pair potential between particles called `i` and `j`.
    pub fn missing_pair(i: &str, j: &str) -> (advisory: Advisory)
        ensures
            advisory@ == (AdvisoryView {
                category: Category::Pair,
                names: canonical_pair_names(i@, j@),
            }),
    {
        Advisory::of_two(Category::Pair, i, j)
    }

    /// No bond potential between particles called `i` and `j`.
    pub fn missing_bond(i: &str, j: &str) -> (advisory: Advisory)
        ensures
            advisory@ == (AdvisoryView {
                category: Category::Bond,
                names: canonical_pair_names(i@, j@),
            }),
    {
        Advisory::of_two(Category::Bond, i, j)
    }

    /// An advisory of `category` about two names.
    fn of_two(category: Category, i: &str, j: &str) -> (advisory: Advisory)
        ensures
            advisory@ == (AdvisoryView { category, names: canonical_pair_names(i@, j@) }),
    {
        let mut names: Vec<String> = Vec::new();
        if name_before(i, j) {
            names.push(i.to_owned());
            names.push(j.to_owned());
        } else {
            names.push(j.to_owned());
            names.push(i.to_owned());
        }
        let advisory = Advisory { category, names };
        assert(advisory@.names =~= canonical_pair_names(i@, j@));
        advisory
    }

    /// No angle potential for particles called `i`, `j` and `k`.
    pub fn missing_angle(i: &str, j: &str, k: &str) -> (advisory: Advisory)
        ensures
            advisory@ == (AdvisoryView {
                category: Category::Angle,
                names: canonical_angle_names(i@, j@, k@),
            }),
    {
        let mut names: Vec<String> = Vec::new();
        if name_before(i, k) {
            names.push(i.to_owned());
            names.push(j.to_owned());
            names.push(k.to_owned());
        } else {
            names.push(k.to_owned());
            names.push(j.to_owned());
            names.push(i.to_owned());
        }
        let advisory = Advisory { category: Category::Angle, names };
        assert(advisory@.names =~= canonical_angle_names(i@, j@, k@));
        advisory
    }

    /// No dihedral potential for particles called `i`, `j`, `k` and `m`.
    pub fn missing_dihedral(i: &str, j: &str, k: &str, m: &str) -> (advisory: Advisory)
        ensures
            advisory@ == (AdvisoryView {
                category: Category::Dihedral,
                names: canonical_dihedral_names(i@, j@, k@, m@),
            }),
    {
        let max_ij = if name_before(i, j) { j } else { i };
        let max_km = if name_before(k, m) { m } else { k };
        let min_ij = if name_before(j, i) { j } else { i };
        let min_km = if name_before(m, k) { m } else { k };
        let in_order = if !same_name(max_ij, max_km) {
            name_before(max_ij, max_km)
        } else if !same_name(min_ij, min_km) {
            name_before(min_ij, min_km)
        } else {
            !name_before(m, i)
        };
        let mut names: Vec<String> = Vec::new();
        if in_order {
            names.push(i.to_owned());
            names.push(j.to_owned());
            names.push(k.to_owned());
            names.push(m.to_owned());
        } else {
            names.push(m.to_owned());
            names.push(k.to_owned());
            names.push(j.to_owned());
            names.push(i.to_owned());
        }
        let advisory = Advisory { category: Category::Dihedral, names };
        assert(advisory@.names =~= canonical_dihedral_names(i@, j@, k@, m@));
        advisory
    }

    /// The kind of interaction that the advisory is about.
    pub fn category(&self) -> (category: Category)
        ensures
            category == self@.category,
    {
        self.category
    }

    /// Whether two advisories say the same.
    pub fn same(&self, other: &Advisory) -> (same: bool)
        ensures
            same == (self@ == other@),
    {
        if !same_category(self.category, other.category) {
            return false;
        }
        if self.names.len() != other.names.len() {
            assert(self@.names.len() != other@.names.len());
            return false;
        }
        let mut i: usize = 0;
        while i < self.names.len()
            invariant
                i <= self.names.len(),
                self.names@.len() == other.names@.len(),
                forall|k: int| 0 <= k < i ==> self@.names[k] == other@.names[k],
            decreases self.names.len() - i,
        {
            if !same_name(self.names[i].as_str(), other.names[i].as_str()) {
                assert(self@.names[i as int] != other@.names[i as int]);
                return false;
            }
            i += 1;
        }
        assert(self@.names =~= other@.names);
        true
    }

    /// The text of the advisory.
    pub fn message(&self) -> (text: String)
        ensures
            text@ == message_of(self@),
    {
        let mut text = String::from_str("No potential defined for the ");
        text.append(
            match self.category {
                Category::Pair => "pair",
                Category::Bond => "bond",
                Category::Angle => "angle",
                Category::Dihedral => "dihedral angle",
            },
        );
        text.append(" (");
        let ghost head = text@;
        let mut i: usize = 0;
        while i < self.names.len()
            invariant
                i <= self.names.len(),
                text@ == head + joined(self@.names, i as nat),
            decreases self.names.len() - i,
        {
            if i > 0 {
                text.append(", ");
            }
            text.append(self.names[i].as_str());
            proof {
                assert(self@.names[i as int] == self.names@[i as int]@);
                if i == 0 {
                    assert(text@ =~= head + joined(self@.names, 1));
                } else {
                    assert(text@ =~= head + joined(self@.names, (i + 1) as nat));
                }
            }
            i += 1;
        }
        text.append(")");
        assert(text@ =~= message_of(self@));
        text
    }
}

/// Whether two categories are the same.
fn same_category(a: Category, b: Category) -> (same: bool)
    ensures
        same == (a == b),
{
    match (a, b) {
        (Category::Pair, Category::Pair) => true,
        (Category::Bond, Category::Bond) => true,
        (Category::Angle, Category::Angle) => true,
        (Category::Dihedral, Category::Dihedral) => true,
        _ => false,
    }
}

/// `log` after `advisory` was recorded: it is added at the end unless the
/// log holds it already.
pub open spec fn recorded(log: Seq<AdvisoryView>, advisory: AdvisoryView) -> Seq<AdvisoryView> {
    if log.contains(advisory) {
        log
    } else {
        log.push(advisory)
    }
}

/// No advisory stands twice in `log`.
pub open spec fn without_repeats(log: Seq<AdvisoryView>) -> bool {
    forall|i: int, j: int| 0 <= i < j < log.len() ==> log[i] != log[j]
}

/// The advisories given so far, each once.
pub struct Advisories {
    entries: Vec<Advisory>,
}

impl View for Advisories {
    type V = Seq<AdvisoryView>;

    closed spec fn view(&self) -> Seq<AdvisoryView> {
        Seq::new(self.entries@.len(), |i: int| self.entries@[i]@)
    }
}

impl Advisories {
    /// No advisory stands twice.
    pub open spec fn well_formed(&self) -> bool {
        without_repeats(self@)
    }

    /// An empty log.
    pub fn new() -> (log: Advisories)
        ensures
            log.well_formed(),
            log@ == Seq::<AdvisoryView>::empty(),
    {
        let log = Advisories { entries: Vec::new() };
        assert(log@ =~= Seq::<AdvisoryView>::empty());
        log
    }

    /// The number of advisories.
    pub fn len(&self) -> (count: usize)
        ensures
            count == self@.len(),
    {
        self.entries.len()
    }

    /// The advisory that was recorded as number `i`.
    pub fn get(&self, i: usize) -> (advisory: &Advisory)
        requires
            i < self@.len(),
        ensures
            advisory@ == self@[i as int],
    {
        &self.entries[i]
    }

    /// Whether the log holds `advisory`.
    pub fn contains(&self, advisory: &Advisory) -> (found: bool)
        ensures
            found == self@.contains(advisory@),
    {
        let mut i: usize = 0;
        while i < self.entries.len()
            invariant
                i <= self.entries.len(),
                forall|k: int| 0 <= k < i ==> self@[k] != advisory@,
            decreases self.entries.len() - i,
        {
            if self.entries[i].same(advisory) {
                assert(self@[i as int] == advisory@);
                return true;
            }
            i += 1;
        }
        false
    }

    /// Record `advisory` unless the log holds it already. Returns whether it
    /// was new: only then is there anything to tell the user.
    pub fn record(&mut self, advisory: Advisory) -> (fresh: bool)
        requires
            old(self).well_formed(),
        ensures
            final(self).well_formed(),
            fresh == !old(self)@.contains(advisory@),
            final(self)@ == recorded(old(self)@, advisory@),
    {
        if self.contains(&advisory) {
            false
        } else {
            self.entries.push(advisory);
            assert(self@ =~= old(self)@.push(advisory@));
            true
        }
    }
}

/// Recording an advisory a second time changes nothing: a log that has no
/// repeats holds each advisory at most once, whatever is recorded and
/// however often.
pub proof fn lemma_recorded_once(log: Seq<AdvisoryView>, advisory: AdvisoryView)
    requires
        without_repeats(log),
    ensures
        without_repeats(recorded(log, advisory)),
        recorded(log, advisory).contains(advisory),
        recorded(recorded(log, advisory), advisory) == recorded(log, advisory),
        recorded(log, advisory).len() <= log.len() + 1,
        forall|other: AdvisoryView| log.contains(other) ==> recorded(log, advisory).contains(other),
{
    let after = recorded(log, advisory);
    if !log.contains(advisory) {
        assert(after[log.len() as int] == advisory);
        assert forall|other: AdvisoryView| log.contains(other) implies after.contains(other) by {
            let i = choose|i: int| 0 <= i < log.len() && log[i] == other;
            assert(after[i] == other);
        }
    }
}

} // verus!
