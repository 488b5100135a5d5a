//! The summary of a plan: which crops it uses.

use crate::catalog::{combo_views, Combo};
use crate::plant::Plant;
use vstd::prelude::*;

verus! {

/// The crops of `plants`, each once, in the order in which they first
/// occur.
pub open spec fn distinct(plants: Seq<Plant>) -> Seq<Plant>
    decreases plants.len(),
{
    if plants.len() == 0 {
        Seq::empty()
    } else {
        let before = distinct(plants.drop_last());
        if before.contains(plants.last()) {
            before
        } else {
            before.push(plants.last())
        }
    }
}

/// The bindings of all of `combos`, one combination after the other.
pub open spec fn flattened(combos: Seq<Seq<Plant>>) -> Seq<Plant>
    decreases combos.len(),
{
    if combos.len() == 0 {
        Seq::empty()
    } else {
        flattened(combos.drop_last()) + combos.last()
    }
}

/// The crops that `combos` use, each once, in the order of first use.
pub open spec fn used(combos: Seq<Seq<Plant>>) -> Seq<Plant> {
    distinct(flattened(combos))
}

/// What a sequence holds, told by its last element and what is before it.
proof fn lemma_holds_by_last(plants: Seq<Plant>, p: Plant)
    requires
        plants.len() > 0,
    ensures
        plants.contains(p) <==> plants.drop_last().contains(p) || plants.last() == p,
{
    let front = plants.drop_last();
    if plants.contains(p) {
        let i = choose|i: int| 0 <= i < plants.len() && plants[i] == p;
        if i < front.len() {
            assert(front[i] == p);
        }
    }
    if front.contains(p) {
        let i = choose|i: int| 0 <= i < front.len() && front[i] == p;
        assert(plants[i] == p);
    }
    if plants.last() == p {
        assert(plants[plants.len() - 1] == p);
    }
}

/// `distinct` keeps every crop that occurs, adds none, and lists none
/// twice.
pub proof fn lemma_distinct(plants: Seq<Plant>)
    ensures
        distinct(plants).no_duplicates(),
        forall|p: Plant| distinct(plants).contains(p) <==> plants.contains(p),
    decreases plants.len(),
{
    if plants.len() > 0 {
        let front = plants.drop_last();
        let last = plants.last();
        lemma_distinct(front);
        let before = distinct(front);
        let all = distinct(plants);
        assert forall|p: Plant| all.contains(p) <==> plants.contains(p) by {
            lemma_holds_by_last(plants, p);
            assert(before.contains(p) <==> front.contains(p));
            if before.contains(last) {
                assert(all == before);
            } else {
                assert(all == before.push(last));
                assert(all.drop_last() =~= before);
                lemma_holds_by_last(all, p);
            }
        }
        if !before.contains(last) {
            assert forall|i: int, j: int| 0 <= i < all.len() && 0 <= j < all.len() && i != j implies all[i] != all[j] by {
                if i < before.len() && j < before.len() {
                    assert(before[i] != before[j]);
                } else if i < before.len() {
                    assert(before[i] == all[i]);
                    assert(before.contains(all[i]));
                } else {
                    assert(before[j] == all[j]);
                    assert(before.contains(all[j]));
                }
            }
        }
    }
}

/// Whether `plant` is among `plants`.
fn holds(plants: &Vec<Plant>, plant: Plant) -> (b: bool)
    ensures
        b == plants@.contains(plant),
{
    let mut i: usize = 0;
    while i < plants.len()
        invariant
            i <= plants.len(),
            forall|k: int| 0 <= k < i ==> plants@[k] != plant,
        decreases plants.len() - i,
    {
        if plants[i] == plant {
            return true;
        }
        i = i + 1;
    }
    false
}

/// The crops that `combos` use, each once, in the order of first use.
pub fn used_plants(combos: &Vec<Combo>) -> (plants: Vec<Plant>)
    ensures
        plants@ == used(combo_views(combos@)),
{
    let ghost all = combo_views(combos@);
    let mut plants: Vec<Plant> = Vec::new();
    let mut i: usize = 0;
    while i < combos.len()
        invariant
            i <= combos.len(),
            all == combo_views(combos@),
            plants@ == distinct(flattened(all.take(i as int))),
        decreases combos.len() - i,
    {
        let combo = &combos[i];
        let ghost before = flattened(all.take(i as int));
        let mut j: usize = 0;
        assert(before + combo@.take(0) =~= before);
        while j < combo.plants.len()
            invariant
                j <= combo.plants.len(),
                plants@ == distinct(before + combo@.take(j as int)),
            decreases combo.plants.len() - j,
        {
            let plant: Plant = combo.plants[j];
            proof {
                let longer = before + combo@.take(j + 1);
                assert(longer.drop_last() =~= before + combo@.take(j as int));
                assert(longer.last() == plant);
            }
            if !holds(&plants, plant) {
                plants.push(plant);
            }
            j = j + 1;
        }
        proof {
            assert(combo@.take(j as int) =~= combo@);
            assert(all.take(i + 1).drop_last() =~= all.take(i as int));
            assert(all.take(i + 1).last() == combo@);
        }
        i = i + 1;
    }
    assert(all.take(i as int) =~= all);
    plants
}

} // verus!
