//! Particle kinds: one small integer for each distinct particle name.

use vstd::prelude::*;
use vstd::string::*;
use crate::names::same_name;

verus! {

/// The kind of a particle. Two particles have the same kind exactly when
/// they have the same name; kinds are numbered in the order in which their
/// names were first seen.
#[derive(Clone, Copy, Debug, PartialEq, Eq, Structural, PartialOrd, Ord, Hash)]
pub struct ParticleKind(pub u32);

impl ParticleKind {
    /// The kind given to particles that no system has seen yet.
    pub fn invalid() -> (kind: ParticleKind)
        ensures
            kind.0 == u32::MAX,
    {
        ParticleKind(u32::MAX)
    }
}

/// The position of `name` among `names`, if it is there.
pub open spec fn position_of(names: Seq<Seq<char>>, name: Seq<char>) -> Option<int> {
    if exists|i: int| 0 <= i < names.len() && names[i] == name {
        Some(choose|i: int| 0 <= i < names.len() && names[i] == name)
    } else {
        None
    }
}

/// No name occurs twice.
pub open spec fn distinct_names(names: Seq<Seq<char>>) -> bool {
    forall|i: int, j: int| 0 <= i < j < names.len() ==> names[i] != names[j]
}

/// `names` after `name` was registered: it is appended unless it is there.
pub open spec fn with_name(names: Seq<Seq<char>>, name: Seq<char>) -> Seq<Seq<char>> {
    if names.contains(name) {
        names
    } else {
        names.push(name)
    }
}

/// The names after the first `count` of `added` were registered with
/// `names`, in their order: each is appended unless it is there already.
pub open spec fn registered(names: Seq<Seq<char>>, added: Seq<Seq<char>>, count: nat) -> Seq<Seq<char>>
    decreases count,
{
    if count == 0 {
        names
    } else {
        with_name(registered(names, added, (count - 1) as nat), added[count - 1])
    }
}

/// Registering a name only appends: every name keeps its place, and the
/// new name is there afterwards.
pub proof fn lemma_with_name(names: Seq<Seq<char>>, name: Seq<char>)
    ensures
        begins_with(with_name(names, name), names),
        with_name(names, name).contains(name),
        with_name(names, name).len() <= names.len() + 1,
        distinct_names(names) ==> distinct_names(with_name(names, name)),
        forall|other: Seq<char>| names.contains(other) ==> with_name(names, name).contains(other),
        forall|other: Seq<char>|
            distinct_names(names) && names.contains(other) ==> position_of(
                with_name(names, name),
                other,
            ) == position_of(names, other),
{
    let after = with_name(names, name);
    if names.contains(name) {
    } else {
        assert(after[names.len() as int] == name);
    }
    assert forall|other: Seq<char>| names.contains(other) implies after.contains(other) by {
        let i = choose|i: int| 0 <= i < names.len() && names[i] == other;
        assert(after[i] == other);
    }
    assert forall|other: Seq<char>| distinct_names(names) && names.contains(other) implies position_of(
        after,
        other,
    ) == position_of(names, other) by {
        lemma_kinds_are_stable(names, after, other);
    }
}

/// `before` is how `after` begins.
pub open spec fn begins_with(after: Seq<Seq<char>>, before: Seq<Seq<char>>) -> bool {
    before.len() <= after.len() && forall|i: int| 0 <= i < before.len() ==> before[i] == after[i]
}

/// Registering names only appends: what was registered stays where it was,
/// and at most one name comes for each name registered.
pub proof fn lemma_registered_grows(names: Seq<Seq<char>>, added: Seq<Seq<char>>, count: nat)
    ensures
        begins_with(registered(names, added, count), names),
        registered(names, added, count).len() <= names.len() + count,
        distinct_names(names) ==> distinct_names(registered(names, added, count)),
        forall|k: int| 0 <= k < count ==> registered(names, added, count).contains(#[trigger] added[k]),
    decreases count,
{
    if count > 0 {
        let before = registered(names, added, (count - 1) as nat);
        let after = registered(names, added, count);
        lemma_registered_grows(names, added, (count - 1) as nat);
        assert forall|k: int| 0 <= k < count implies after.contains(#[trigger] added[k]) by {
            if k < count - 1 {
                let i = choose|i: int| 0 <= i < before.len() && before[i] == added[k];
                assert(after[i] == added[k]);
            } else if before.contains(added[k]) {
            } else {
                assert(after[before.len() as int] == added[k]);
            }
        }
    }
}

/// The names known to a system, each at the index that is its kind.
pub struct KindRegistry {
    names: Vec<String>,
}

impl KindRegistry {
    /// The known names, in the order of their kinds.
    pub closed spec fn names(&self) -> Seq<Seq<char>> {
        Seq::new(self.names@.len(), |i: int| self.names@[i]@)
    }

    /// No name is registered twice, and every index fits a kind. Kind
    /// `u32::MAX` is never given out: it marks a particle without a kind.
    pub closed spec fn well_formed(&self) -> bool {
        &&& distinct_names(self.names())
        &&& self.names@.len() <= u32::MAX
    }

    /// What `well_formed` means in terms of the names.
    pub proof fn lemma_well_formed(&self)
        requires
            self.well_formed(),
        ensures
            distinct_names(self.names()),
            self.names().len() <= u32::MAX,
    {
    }

    /// Whether the registry would take one more name.
    pub open spec fn has_room(&self) -> bool {
        self.names().len() < u32::MAX
    }

    /// The kind that `name` has in this registry, if any.
    pub open spec fn kind_of(&self, name: Seq<char>) -> Option<ParticleKind> {
        match position_of(self.names(), name) {
            Some(i) => Some(ParticleKind(i as u32)),
            None => None,
        }
    }

    /// A registry that knows no name.
    pub fn new() -> (registry: KindRegistry)
        ensures
            registry.well_formed(),
            registry.names() == Seq::<Seq<char>>::empty(),
    {
        let registry = KindRegistry { names: Vec::new() };
        assert(registry.names() =~= Seq::<Seq<char>>::empty());
        registry
    }

    /// The number of kinds given out so far.
    pub fn len(&self) -> (count: usize)
        ensures
            count == self.names().len(),
    {
        self.names.len()
    }

    /// The kind of `name`, if the registry knows it.
    pub fn find(&self, name: &str) -> (found: Option<ParticleKind>)
        requires
            self.well_formed(),
        ensures
            found == self.kind_of(name@),
            found matches Some(kind) ==> kind.0 < self.names().len()
                && self.names()[kind.0 as int] == name@,
            found is None ==> !self.names().contains(name@),
    {
        let mut i: usize = 0;
        while i < self.names.len()
            invariant
                i <= self.names.len(),
                self.well_formed(),
                forall|k: int| 0 <= k < i ==> self.names()[k] != name@,
            decreases self.names.len() - i,
        {
            if same_name(self.names[i].as_str(), name) {
                proof {
                    assert(self.names()[i as int] == name@);
                    let c = position_of(self.names(), name@)->0;
                    assert(0 <= c < self.names().len() && self.names()[c] == name@);
                    assert(c == i);
                }
                return Some(ParticleKind(i as u32));
            }
            i += 1;
        }
        None
    }

    /// The kind of `name`, which is registered first if it is new.
    ///
    /// A known name keeps its kind and leaves the registry as it was; a new
    /// one is appended and gets the next free kind.
    pub fn get_kind(&mut self, name: &str) -> (kind: ParticleKind)
        requires
            old(self).well_formed(),
            old(self).has_room() || old(self).names().contains(name@),
        ensures
            final(self).well_formed(),
            final(self).kind_of(name@) == Some(kind),
            match old(self).kind_of(name@) {
                Some(known) => kind == known && final(self).names() == old(self).names(),
                None => kind.0 == old(self).names().len() && final(self).names() == old(self).names().push(name@),
            },
    {
        match self.find(name) {
            Some(kind) => kind,
            None => {
                let kind = ParticleKind(self.names.len() as u32);
                self.names.push(name.to_owned());
                proof {
                    assert(self.names() =~= old(self).names().push(name@));
                    let n = old(self).names().len() as int;
                    assert(self.names()[n] == name@);
                    let c = position_of(self.names(), name@)->0;
                    assert(0 <= c < self.names().len() && self.names()[c] == name@);
                    if c < n {
                        assert(old(self).names()[c] == name@);
                    }
                }
                kind
            }
        }
    }

    /// The name that was given `kind`.
    pub fn name(&self, kind: ParticleKind) -> (name: Option<&str>)
        ensures
            match name {
                Some(text) => kind.0 < self.names().len() && text@ == self.names()[kind.0 as int],
                None => kind.0 >= self.names().len(),
            },
    {
        if (kind.0 as usize) < self.names.len() {
            Some(self.names[kind.0 as usize].as_str())
        } else {
            None
        }
    }
}

/// A name that is registered again gets the kind it had, whatever was
/// registered in between: the registry only grows at its end.
pub proof fn lemma_kinds_are_stable(before: Seq<Seq<char>>, after: Seq<Seq<char>>, name: Seq<char>)
    requires
        distinct_names(after),
        before.len() <= after.len(),
        forall|i: int| 0 <= i < before.len() ==> before[i] == after[i],
        before.contains(name),
    ensures
        position_of(after, name) == position_of(before, name),
{
    let i = choose|i: int| 0 <= i < before.len() && before[i] == name;
    assert(after[i] == name);
    let a = position_of(before, name)->0;
    let b = position_of(after, name)->0;
    assert(0 <= a < before.len() && before[a] == name);
    assert(0 <= b < after.len() && after[b] == name);
    assert(after[a] == name);
    assert(a == b);
}

} // verus!
