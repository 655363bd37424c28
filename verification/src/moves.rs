//! Which terms of the energy a trial move can change.
//!
//! A move sorts the particles into classes: the particles of one class keep
//! their places relative to each other, so a term whose particles are all
//! of one class stays as it was. Only terms with particles from different
//! classes have to be computed again.

use vstd::prelude::*;

verus! {

/// The pairs `(i, b)` with `i < b < j` whose particles are in different
/// classes, by ascending `b`.
pub open spec fn row_pairs(classes: Seq<usize>, i: int, j: int) -> Seq<(usize, usize)>
    decreases j - i,
{
    if j <= i + 1 {
        Seq::empty()
    } else if classes[i] != classes[j - 1] {
        row_pairs(classes, i, j - 1).push((i as usize, (j - 1) as usize))
    } else {
        row_pairs(classes, i, j - 1)
    }
}

/// The pairs `(a, b)` with `a < i` and `a < b` whose particles are in
/// different classes, by ascending `a` and then `b`.
pub open spec fn pairs_before(classes: Seq<usize>, i: int) -> Seq<(usize, usize)>
    decreases i,
{
    if i <= 0 {
        Seq::empty()
    } else {
        pairs_before(classes, i - 1) + row_pairs(classes, i - 1, classes.len() as int)
    }
}

/// All pairs of particles from different classes, each once, the smaller
/// index first.
pub open spec fn changed_pairs(classes: Seq<usize>) -> Seq<(usize, usize)> {
    pairs_before(classes, classes.len() as int)
}

/// The sum of the energy `energy` over `pairs`.
pub open spec fn sum_over(pairs: Seq<(usize, usize)>, energy: spec_fn(int, int) -> int) -> int
    decreases pairs.len(),
{
    if pairs.len() == 0 {
        0
    } else {
        sum_over(pairs.drop_last(), energy) + energy(pairs.last().0 as int, pairs.last().1 as int)
    }
}

/// The sum of the energy over the pairs `(i, b)` with `i < b < j`.
pub open spec fn row_total(energy: spec_fn(int, int) -> int, i: int, j: int) -> int
    decreases j - i,
{
    if j <= i + 1 {
        0
    } else {
        row_total(energy, i, j - 1) + energy(i, j - 1)
    }
}

/// The sum of the energy over the pairs `(a, b)` with `a < i` and
/// `a < b < size`.
pub open spec fn total_before(energy: spec_fn(int, int) -> int, size: int, i: int) -> int
    decreases i,
{
    if i <= 0 {
        0
    } else {
        total_before(energy, size, i - 1) + row_total(energy, i - 1, size)
    }
}

/// The pair energy of `size` particles: the sum over all pairs.
pub open spec fn total_energy(energy: spec_fn(int, int) -> int, size: int) -> int {
    total_before(energy, size, size)
}

/// Two energies agree on every pair of two particles of one class.
pub open spec fn agree_within_classes(
    classes: Seq<usize>,
    before: spec_fn(int, int) -> int,
    after: spec_fn(int, int) -> int,
) -> bool {
    forall|i: int, j: int|
        0 <= i < j < classes.len() && classes[i] == classes[j] ==> #[trigger] before(i, j) == after(
            i,
            j,
        )
}

/// The sum over two lists, one after the other, is the sum of their sums.
pub proof fn lemma_sum_over_concat(
    first: Seq<(usize, usize)>,
    second: Seq<(usize, usize)>,
    energy: spec_fn(int, int) -> int,
)
    ensures
        sum_over(first + second, energy) == sum_over(first, energy) + sum_over(second, energy),
    decreases second.len(),
{
    if second.len() == 0 {
        assert(first + second =~= first);
    } else {
        lemma_sum_over_concat(first, second.drop_last(), energy);
        assert((first + second).drop_last() =~= first + second.drop_last());
        assert((first + second).last() == second.last());
    }
}

/// Within one row, the change of the total is the change over the pairs
/// from different classes.
proof fn lemma_row_change(
    classes: Seq<usize>,
    before: spec_fn(int, int) -> int,
    after: spec_fn(int, int) -> int,
    i: int,
    j: int,
)
    requires
        agree_within_classes(classes, before, after),
        0 <= i,
        j <= classes.len(),
        classes.len() <= usize::MAX,
    ensures
        row_total(after, i, j) - row_total(before, i, j) == sum_over(row_pairs(classes, i, j), after)
            - sum_over(row_pairs(classes, i, j), before),
    decreases j - i,
{
    if j > i + 1 {
        lemma_row_change(classes, before, after, i, j - 1);
        let rest = row_pairs(classes, i, j - 1);
        if classes[i] != classes[j - 1] {
            let row = rest.push((i as usize, (j - 1) as usize));
            assert(row.drop_last() =~= rest);
            assert(row.last() == (i as usize, (j - 1) as usize));
        } else {
            assert(before(i, j - 1) == after(i, j - 1));
        }
    }
}

/// Over the first rows, the change of the total is the change over the
/// pairs from different classes.
proof fn lemma_change_before(
    classes: Seq<usize>,
    before: spec_fn(int, int) -> int,
    after: spec_fn(int, int) -> int,
    i: int,
)
    requires
        agree_within_classes(classes, before, after),
        i <= classes.len(),
        classes.len() <= usize::MAX,
    ensures
        total_before(after, classes.len() as int, i) - total_before(before, classes.len() as int, i)
            == sum_over(pairs_before(classes, i), after) - sum_over(pairs_before(classes, i), before),
    decreases i,
{
    if i > 0 {
        let size = classes.len() as int;
        lemma_change_before(classes, before, after, i - 1);
        lemma_row_change(classes, before, after, i - 1, size);
        lemma_sum_over_concat(pairs_before(classes, i - 1), row_pairs(classes, i - 1, size), before);
        lemma_sum_over_concat(pairs_before(classes, i - 1), row_pairs(classes, i - 1, size), after);
    }
}

/// The cost of a move is the change over the changed pairs: if a move
/// leaves the energy of every pair within a class as it was, the total pair
/// energy after the move less the total before it is the sum, over the
/// pairs from different classes, of the energy after less the energy
/// before. Energies are taken as exact numbers here.
pub proof fn lemma_cost_is_change_over_changed_pairs(
    classes: Seq<usize>,
    before: spec_fn(int, int) -> int,
    after: spec_fn(int, int) -> int,
)
    requires
        agree_within_classes(classes, before, after),
        classes.len() <= usize::MAX,
    ensures
        total_energy(after, classes.len() as int) - total_energy(before, classes.len() as int)
            == sum_over(changed_pairs(classes), after) - sum_over(changed_pairs(classes), before),
{
    lemma_change_before(classes, before, after, classes.len() as int);
}

/// What stands in a row: exactly the pairs of the row whose particles are
/// in different classes.
pub proof fn lemma_row_pairs(classes: Seq<usize>, i: int, j: int)
    requires
        0 <= i,
        j <= classes.len(),
        classes.len() <= usize::MAX,
    ensures
        forall|pair: (usize, usize)|
            row_pairs(classes, i, j).contains(pair) <==> (pair.0 == i && i < pair.1 < j
                && classes[i] != classes[pair.1 as int]),
    decreases j - i,
{
    if j > i + 1 {
        lemma_row_pairs(classes, i, j - 1);
        let rest = row_pairs(classes, i, j - 1);
        let row = row_pairs(classes, i, j);
        assert forall|pair: (usize, usize)| row.contains(pair) <==> (pair.0 == i && i < pair.1 < j
            && classes[i] != classes[pair.1 as int]) by {
            if classes[i] != classes[j - 1] {
                let last = (i as usize, (j - 1) as usize);
                assert(row == rest.push(last));
                if row.contains(pair) {
                    let k = choose|k: int| 0 <= k < row.len() && row[k] == pair;
                    if k < rest.len() {
                        assert(rest[k] == pair);
                    }
                }
                if rest.contains(pair) {
                    let k = choose|k: int| 0 <= k < rest.len() && rest[k] == pair;
                    assert(row[k] == pair);
                }
                if pair == last {
                    assert(row[rest.len() as int] == pair);
                }
            }
        }
    } else {
        assert forall|pair: (usize, usize)| !row_pairs(classes, i, j).contains(pair) by {}
    }
}

/// What stands before row `i`: exactly the pairs of earlier rows whose
/// particles are in different classes.
pub proof fn lemma_pairs_before(classes: Seq<usize>, i: int)
    requires
        i <= classes.len(),
        classes.len() <= usize::MAX,
    ensures
        forall|pair: (usize, usize)|
            pairs_before(classes, i).contains(pair) <==> (pair.0 < i && pair.0 < pair.1
                < classes.len() && classes[pair.0 as int] != classes[pair.1 as int]),
    decreases i,
{
    if i > 0 {
        let size = classes.len() as int;
        lemma_pairs_before(classes, i - 1);
        lemma_row_pairs(classes, i - 1, size);
        let head = pairs_before(classes, i - 1);
        let row = row_pairs(classes, i - 1, size);
        let all = pairs_before(classes, i);
        assert(all == head + row);
        assert forall|pair: (usize, usize)| all.contains(pair) <==> (pair.0 < i && pair.0 < pair.1
            < classes.len() && classes[pair.0 as int] != classes[pair.1 as int]) by {
            if all.contains(pair) {
                let k = choose|k: int| 0 <= k < all.len() && all[k] == pair;
                if k < head.len() {
                    assert(head[k] == pair);
                    assert(head.contains(pair));
                } else {
                    assert(row[k - head.len()] == pair);
                    assert(row.contains(pair));
                }
            }
            if pair.0 < i && pair.0 < pair.1 < classes.len() && classes[pair.0 as int]
                != classes[pair.1 as int] {
                if pair.0 < i - 1 {
                    assert(head.contains(pair));
                    let k = choose|k: int| 0 <= k < head.len() && head[k] == pair;
                    assert(all[k] == pair);
                } else {
                    assert(row.contains(pair));
                    let k = choose|k: int| 0 <= k < row.len() && row[k] == pair;
                    assert(all[head.len() + k] == pair);
                }
            }
        }
    } else {
        assert forall|pair: (usize, usize)| !pairs_before(classes, i).contains(pair) by {}
    }
}

/// The changed pairs are exactly the pairs of particles from different
/// classes, the smaller index first: no pair within a class is among them.
pub proof fn lemma_changed_pairs(classes: Seq<usize>)
    requires
        classes.len() <= usize::MAX,
    ensures
        forall|pair: (usize, usize)|
            changed_pairs(classes).contains(pair) <==> (pair.0 < pair.1 < classes.len()
                && classes[pair.0 as int] != classes[pair.1 as int]),
{
    lemma_pairs_before(classes, classes.len() as int);
}

/// The classes of a move of single particles: every particle that is
/// marked has a class of its own, and all others share class zero.
pub open spec fn classes_of_moved(moved: Seq<bool>) -> Seq<usize> {
    Seq::new(
        moved.len(),
        |i: int|
            if moved[i] {
                (i + 1) as usize
            } else {
                0usize
            },
    )
}

/// Marks for `size` particles: those at the indices `indices` are marked.
pub open spec fn marks_of(size: int, indices: Seq<usize>) -> Seq<bool> {
    Seq::new(size as nat, |i: int| indices.contains(i as usize))
}

/// The classes of a move of single particles. `None` if `moved` names a
/// particle that is not there, or if the indices do not fit the classes.
pub fn classes_of_move(size: usize, moved: &[usize]) -> (classes: Option<Vec<usize>>)
    ensures
        match classes {
            Some(classes) => size < usize::MAX && (forall|k: int|
                0 <= k < moved@.len() ==> moved@[k] < size) && classes@ == classes_of_moved(
                marks_of(size as int, moved@),
            ),
            None => size == usize::MAX || exists|k: int| 0 <= k < moved@.len() && moved@[k] >= size,
        },
{
    if size == usize::MAX {
        return None;
    }
    let mut classes: Vec<usize> = Vec::new();
    let mut i: usize = 0;
    while i < size
        invariant
            i <= size,
            classes@.len() == i,
            forall|k: int| 0 <= k < i ==> classes@[k] == 0,
        decreases size - i,
    {
        classes.push(0);
        i += 1;
    }
    let mut m: usize = 0;
    while m < moved.len()
        invariant
            m <= moved.len(),
            size < usize::MAX,
            classes@.len() == size,
            forall|k: int| 0 <= k < m ==> moved@[k] < size,
            forall|p: int|
                0 <= p < size ==> classes@[p] == if moved@.take(m as int).contains(p as usize) {
                    (p + 1) as usize
                } else {
                    0usize
                },
        decreases moved.len() - m,
    {
        let index = moved[m];
        if index >= size {
            return None;
        }
        classes[index] = index + 1;
        proof {
            let earlier = moved@.take(m as int);
            let now = moved@.take(m + 1);
            assert(now =~= earlier.push(index));
            assert forall|p: int| 0 <= p < size implies classes@[p] == if now.contains(p as usize) {
                (p + 1) as usize
            } else {
                0usize
            } by {
                if earlier.contains(p as usize) {
                    let k = choose|k: int| 0 <= k < earlier.len() && earlier[k] == p as usize;
                    assert(now[k] == p as usize);
                }
                if now.contains(p as usize) && p != index {
                    let k = choose|k: int| 0 <= k < now.len() && now[k] == p as usize;
                    assert(earlier[k] == p as usize);
                }
                if p == index {
                    assert(now[m as int] == index);
                }
            }
        }
        m += 1;
    }
    proof {
        assert(moved@.take(moved@.len() as int) =~= moved@);
        assert(classes@ =~= classes_of_moved(marks_of(size as int, moved@)));
    }
    Some(classes)
}

/// The pairs that a move can change: all pairs of particles from different
/// classes, each once, the smaller index first, in ascending order.
pub fn pairs_to_compute(classes: &Vec<usize>) -> (pairs: Vec<(usize, usize)>)
    ensures
        pairs@ == changed_pairs(classes@),
{
    let size = classes.len();
    let mut pairs: Vec<(usize, usize)> = Vec::new();
    let mut i: usize = 0;
    while i < size
        invariant
            size == classes@.len(),
            i <= size,
            pairs@ == pairs_before(classes@, i as int),
        decreases size - i,
    {
        let ghost head = pairs@;
        let mut j: usize = i + 1;
        while j < size
            invariant
                size == classes@.len(),
                i < size,
                i + 1 <= j <= size,
                pairs@ == head + row_pairs(classes@, i as int, j as int),
            decreases size - j,
        {
            if classes[i] != classes[j] {
                pairs.push((i, j));
            }
            proof {
                let row = row_pairs(classes@, i as int, j as int);
                if classes@[i as int] != classes@[j as int] {
                    assert(head + row.push((i, j)) =~= (head + row).push((i, j)));
                }
            }
            j += 1;
        }
        proof {
            assert(head + row_pairs(classes@, i as int, (i + 1) as int) =~= head);
        }
        i += 1;
    }
    pairs
}

/// Whether the particles `particles` are all of one class.
pub open spec fn in_one_class(classes: Seq<usize>, particles: Seq<usize>) -> bool {
    forall|a: int, b: int|
        0 <= a < particles.len() && 0 <= b < particles.len() ==> classes[(#[trigger] particles[a]) as int]
            == classes[(#[trigger] particles[b]) as int]
}

/// Whether a move can change a term on the particles `particles`: it can
/// unless they are all of one class.
pub fn changes(classes: &Vec<usize>, particles: &[usize]) -> (changed: bool)
    requires
        forall|a: int| 0 <= a < particles@.len() ==> #[trigger] particles@[a] < classes@.len(),
    ensures
        changed == !in_one_class(classes@, particles@),
{
    let mut a: usize = 1;
    while a < particles.len()
        invariant
            1 <= a,
            forall|k: int| 0 <= k < particles@.len() ==> #[trigger] particles@[k] < classes@.len(),
            forall|k: int|
                0 <= k < a && k < particles@.len() ==> classes@[(#[trigger] particles@[k]) as int]
                    == classes@[particles@[0] as int],
        decreases particles.len() - a,
    {
        if classes[particles[a]] != classes[particles[0]] {
            return true;
        }
        a += 1;
    }
    false
}

/// The bonds among the first `count` of `bonds` whose two particles are in
/// different classes, in their order.
pub open spec fn changed_bonds(classes: Seq<usize>, bonds: Seq<(usize, usize)>, count: nat) -> Seq<
    (usize, usize),
>
    decreases count,
{
    if count == 0 {
        Seq::empty()
    } else if classes[bonds[count - 1].0 as int] != classes[bonds[count - 1].1 as int] {
        changed_bonds(classes, bonds, (count - 1) as nat).push(bonds[count - 1])
    } else {
        changed_bonds(classes, bonds, (count - 1) as nat)
    }
}

/// The bonds that a move can change: those of `bonds` whose two particles
/// are in different classes, in their order.
pub fn bonds_to_compute(classes: &Vec<usize>, bonds: &Vec<(usize, usize)>) -> (changed: Vec<
    (usize, usize),
>)
    requires
        forall|b: int|
            0 <= b < bonds@.len() ==> (#[trigger] bonds@[b]).0 < classes@.len() && bonds@[b].1
                < classes@.len(),
    ensures
        changed@ == changed_bonds(classes@, bonds@, bonds@.len()),
{
    let mut changed: Vec<(usize, usize)> = Vec::new();
    let mut b: usize = 0;
    while b < bonds.len()
        invariant
            b <= bonds.len(),
            forall|k: int|
                0 <= k < bonds@.len() ==> (#[trigger] bonds@[k]).0 < classes@.len() && bonds@[k].1
                    < classes@.len(),
            changed@ == changed_bonds(classes@, bonds@, b as nat),
        decreases bonds.len() - b,
    {
        let ends = bonds[b];
        if classes[ends.0] != classes[ends.1] {
            changed.push(ends);
        }
        b += 1;
    }
    changed
}

/// The cost of a move in bond energy is the change over the changed bonds:
/// if a move leaves the energy of every bond within a class as it was, the
/// energy of the first bonds after the move less their energy before it
/// is the same difference over those of them whose particles are in
/// different classes. Energies are taken as exact numbers.
pub proof fn lemma_cost_is_change_over_changed_bonds(
    classes: Seq<usize>,
    bonds: Seq<(usize, usize)>,
    before: spec_fn(int, int) -> int,
    after: spec_fn(int, int) -> int,
    count: nat,
)
    requires
        count <= bonds.len(),
        forall|b: int|
            0 <= b < bonds.len() && classes[bonds[b].0 as int] == classes[bonds[b].1 as int]
                ==> #[trigger] before(bonds[b].0 as int, bonds[b].1 as int) == after(
                bonds[b].0 as int,
                bonds[b].1 as int,
            ),
    ensures
        sum_over(bonds.take(count as int), after) - sum_over(bonds.take(count as int), before)
            == sum_over(changed_bonds(classes, bonds, count), after) - sum_over(
            changed_bonds(classes, bonds, count),
            before,
        ),
    decreases count,
{
    if count > 0 {
        lemma_cost_is_change_over_changed_bonds(classes, bonds, before, after, (count - 1) as nat);
        let first = bonds.take(count as int);
        assert(first.drop_last() =~= bonds.take(count - 1));
        assert(first.last() == bonds[count - 1]);
        let rest = changed_bonds(classes, bonds, (count - 1) as nat);
        if classes[bonds[count - 1].0 as int] != classes[bonds[count - 1].1 as int] {
            assert(rest.push(bonds[count - 1]).drop_last() =~= rest);
        } else {
            assert(before(bonds[count - 1].0 as int, bonds[count - 1].1 as int) == after(
                bonds[count - 1].0 as int,
                bonds[count - 1].1 as int,
            ));
        }
    } else {
        assert(bonds.take(0) =~= Seq::<(usize, usize)>::empty());
    }
}

/// Bonds that all lie within a class are never changed.
pub proof fn lemma_no_bond_changes_within_classes(
    classes: Seq<usize>,
    bonds: Seq<(usize, usize)>,
    count: nat,
)
    requires
        count <= bonds.len(),
        forall|b: int|
            0 <= b < bonds.len() ==> classes[(#[trigger] bonds[b]).0 as int] == classes[bonds[b].1 as int],
    ensures
        changed_bonds(classes, bonds, count) == Seq::<(usize, usize)>::empty(),
    decreases count,
{
    if count > 0 {
        lemma_no_bond_changes_within_classes(classes, bonds, (count - 1) as nat);
    }
}

} // verus!
