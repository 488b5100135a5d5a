//! The allocation engine: it looks the candidates up, fixes the order in
//! which they are tried, and fills the slots of the farm.

use crate::catalog::{combo_views, fits, Combo, ComboCatalog};
use crate::error::PlanError;
use crate::layout::{CropRatios, FarmSize};
use crate::planting::{
    affordable, first_fit, leftover, lemma_occurrences_prefix, lemma_occurrences_step,
    lemma_picks_in_range, lemma_leftover_never_grows, lemma_spending_keeps_unaffordable,
    occurrences, picks, planted, spend,
};
use crate::plant::{Plant, Seasons};
use crate::seeds::SeedCounts;
use vstd::prelude::*;
use vstd::seq_lib::{to_multiset_contains, to_multiset_len};

verus! {

/// Plants `combo` once if `seeds` pays for it: the seeds that are left, or
/// `None` if some crop of the combination is short.
pub fn try_plant(seeds: &SeedCounts, combo: &Combo, cost: u32) -> (r: Option<SeedCounts>)
    ensures
        match r {
            Some(left) => affordable(seeds@, combo@, cost as nat) && left@ == spend(
                seeds@,
                combo@,
                cost as nat,
            ),
            None => !affordable(seeds@, combo@, cost as nat),
        },
{
    let mut left: SeedCounts = *seeds;
    let mut i: usize = 0;
    proof {
        assert forall|p: Plant|
            left@[p] + cost * #[trigger] occurrences(combo@.take(0), p) == seeds@[p] by {
            assert(combo@.take(0).len() == 0);
            assert(cost * 0 == 0);
        }
    }
    while i < combo.plants.len()
        invariant
            i <= combo.plants.len(),
            forall|p: Plant|
                left@[p] + cost * #[trigger] occurrences(combo@.take(i as int), p) == seeds@[p],
        decreases combo.plants.len() - i,
    {
        let plant: Plant = combo.plants[i];
        let current: u32 = left.get(plant);
        let ghost before = left@;
        if current >= cost {
            left.set(plant, current - cost);
            proof {
                assert forall|p: Plant|
                    left@[p] + cost * #[trigger] occurrences(combo@.take(i + 1), p)
                        == seeds@[p] by {
                    lemma_occurrences_step(combo@, i as int, p);
                    let n = occurrences(combo@.take(i as int), p);
                    assert(before[p] + cost * n == seeds@[p]);
                    assert(cost * (n + 1) == cost * n + cost) by (nonlinear_arith);
                }
            }
        } else {
            proof {
                let n = occurrences(combo@.take(i as int), plant);
                let whole = occurrences(combo@, plant);
                lemma_occurrences_step(combo@, i as int, plant);
                lemma_occurrences_prefix(combo@, i + 1, plant);
                assert(before[plant] + cost * n == seeds@[plant]);
                assert(cost * (n + 1) == cost * n + cost) by (nonlinear_arith);
                assert(cost * (n + 1) <= cost * whole) by (nonlinear_arith)
                    requires
                        n + 1 <= whole,
                ;
                assert(!(cost * occurrences(combo@, plant) <= seeds@[plant]));
            }
            return None;
        }
        i = i + 1;
    }
    proof {
        assert(combo@.take(i as int) == combo@);
        assert(left@ =~= spend(seeds@, combo@, cost as nat));
    }
    Some(left)
}

/// What an allocation gives: the combinations planted, one for each slot
/// that was filled, in the order of the slots; the seeds that are left; and
/// the order in which the candidates were tried, as their places in the
/// catalog's list.
#[derive(Debug)]
pub struct Allocation {
    pub combos: Vec<Combo>,
    pub remaining: SeedCounts,
    pub order: Vec<usize>,
}

/// Fills `slots` slots from the candidates `trial`, tried in their order,
/// starting with `seeds`.
///
/// A candidate that the seeds did not pay for at one slot is passed over at
/// every later slot; `lemma_spending_keeps_unaffordable` is why this changes
/// nothing.
pub fn plant_in_order(trial: &Vec<Combo>, seeds: SeedCounts, cost: u32, slots: u32) -> (r: (
    Vec<Combo>,
    SeedCounts,
))
    ensures
        combo_views(r.0@) == planted(combo_views(trial@), seeds@, cost as nat, slots as nat),
        r.1@ == leftover(combo_views(trial@), seeds@, cost as nat, slots as nat),
{
    let ghost order = combo_views(trial@);
    let mut combos: Vec<Combo> = Vec::new();
    let mut left: SeedCounts = seeds;
    let mut viable: Vec<bool> = Vec::new();
    let mut n: usize = 0;
    while n < trial.len()
        invariant
            n <= trial.len(),
            viable@.len() == n,
            forall|i: int| 0 <= i < n ==> viable@[i],
        decreases trial.len() - n,
    {
        viable.push(true);
        n = n + 1;
    }
    let ghost mut done: Seq<int> = Seq::empty();
    let mut slot: u32 = 0;
    while slot < slots
        invariant
            slot <= slots,
            order == combo_views(trial@),
            viable@.len() == trial@.len(),
            forall|i: int|
                0 <= i < viable@.len() && !viable@[i] ==> !affordable(
                    left@,
                    #[trigger] order[i],
                    cost as nat,
                ),
            picks(order, seeds@, cost as nat, slots as nat) == done + picks(
                order,
                left@,
                cost as nat,
                (slots - slot) as nat,
            ),
            leftover(order, seeds@, cost as nat, slots as nat) == leftover(
                order,
                left@,
                cost as nat,
                (slots - slot) as nat,
            ),
            combo_views(combos@) == done.map_values(|i: int| order[i]),
        decreases slots - slot,
    {
        let ghost before = left@;
        let mut j: usize = 0;
        let mut found: bool = false;
        while j < trial.len() && !found
            invariant
                j <= trial.len(),
                order == combo_views(trial@),
                viable@.len() == trial@.len(),
                !found ==> left@ == before,
                !found ==> first_fit(order, before, cost as nat, 0) == first_fit(
                    order,
                    before,
                    cost as nat,
                    j as int,
                ),
                !found ==> combo_views(combos@) == done.map_values(|i: int| order[i]),
                forall|i: int|
                    0 <= i < viable@.len() && !viable@[i] ==> !affordable(
                        before,
                        #[trigger] order[i],
                        cost as nat,
                    ),
                found ==> {
                    let i = first_fit(order, before, cost as nat, 0);
                    &&& i < order.len()
                    &&& left@ == spend(before, order[i], cost as nat)
                    &&& combo_views(combos@) == done.push(i).map_values(|i: int| order[i])
                },
            decreases trial.len() - j, if found { 0int } else { 1int },
        {
            assert(order[j as int] == trial@[j as int]@);
            if viable[j] {
                match try_plant(&left, &trial[j], cost) {
                    Some(after) => {
                        let ghost earlier = combos@;
                        let combo = trial[j].clone();
                        combos.push(combo);
                        left = after;
                        found = true;
                        proof {
                            assert(combo_views(combos@) == combo_views(earlier).push(
                                order[j as int],
                            ));
                            assert(done.push(j as int).map_values(|i: int| order[i])
                                == done.map_values(|i: int| order[i]).push(order[j as int]));
                        }
                    },
                    None => {
                        viable.set(j, false);
                        j = j + 1;
                    },
                }
            } else {
                j = j + 1;
            }
        }
        proof {
            let i = first_fit(order, before, cost as nat, 0);
            if found {
                assert forall|k: int| 0 <= k < viable@.len() && !viable@[k] implies !affordable(
                    left@,
                    #[trigger] order[k],
                    cost as nat,
                ) by {
                    lemma_spending_keeps_unaffordable(before, order[i], order[k], cost as nat);
                }
                assert(done + (seq![i] + picks(
                    order,
                    left@,
                    cost as nat,
                    (slots - slot - 1) as nat,
                )) == done.push(i) + picks(order, left@, cost as nat, (slots - slot - 1) as nat));
                done = done.push(i);
            }
        }
        slot = slot + 1;
    }
    proof {
        assert(done + Seq::<int>::empty() == done);
    }
    (combos, left)
}

/// Whether `order` is an order of trial for `n` candidates: it has `n`
/// entries, each the place of a candidate, and holds every place.
pub open spec fn is_permutation(order: Seq<usize>, n: nat) -> bool {
    &&& order.len() == n
    &&& forall|i: int| 0 <= i < order.len() ==> #[trigger] order[i] < n
    &&& forall|k: usize| k < n ==> #[trigger] order.contains(k)
}

/// The candidates in the order of trial that `order` gives: first the
/// candidate at the place `order[0]`, and so on.
pub open spec fn trial_order(candidates: Seq<Seq<Plant>>, order: Seq<usize>) -> Seq<Seq<Plant>> {
    Seq::new(order.len(), |i: int| candidates[order[i] as int])
}

/// The places `0 .. n` in rising order.
pub open spec fn rising(n: nat) -> Seq<usize> {
    Seq::new(n, |i: int| i as usize)
}

/// Whether `a` is what allocation gives for `candidates`, tried in the
/// order `a.order`, on a farm of `size` under `ratio`, starting with
/// `seeds`.
pub open spec fn is_allocation(
    a: Allocation,
    candidates: Seq<Seq<Plant>>,
    seeds: Map<Plant, nat>,
    ratio: CropRatios,
    size: FarmSize,
) -> bool {
    let trial = trial_order(candidates, a.order@);
    &&& is_permutation(a.order@, candidates.len())
    &&& combo_views(a.combos@) == planted(
        trial,
        seeds,
        ratio.seeds_per_role(),
        ratio.capacity(size),
    )
    &&& a.remaining@ == leftover(trial, seeds, ratio.seeds_per_role(), ratio.capacity(size))
}

/// The places `0 .. n` in rising order.
fn rising_order(n: usize) -> (order: Vec<usize>)
    ensures
        order@ == rising(n as nat),
{
    let mut order: Vec<usize> = Vec::new();
    let mut i: usize = 0;
    while i < n
        invariant
            i <= n,
            order@ == rising(i as nat),
        decreases n - i,
    {
        order.push(i);
        i = i + 1;
    }
    order
}

/// `fastrand::shuffle` on the elements of `order`, with the generator of
/// the calling thread. It only swaps elements, so the vector holds
/// afterwards what it held before, each value as often; in which order is
/// left to chance.
#[verifier::external_body]
fn shuffle(order: &mut Vec<usize>)
    ensures
        final(order)@.to_multiset() == old(order)@.to_multiset(),
{
    fastrand::shuffle(order.as_mut_slice());
}

/// An order of trial for `n` candidates, drawn at random.
pub fn shuffled_order(n: usize) -> (order: Vec<usize>)
    ensures
        is_permutation(order@, n as nat),
{
    let mut order: Vec<usize> = rising_order(n);
    let ghost start = order@;
    shuffle(&mut order);
    proof {
        to_multiset_len(start);
        to_multiset_len(order@);
        assert forall|i: int| 0 <= i < order@.len() implies #[trigger] order@[i] < n by {
            let x = order@[i];
            assert(order@.contains(x));
            to_multiset_contains(order@, x);
            to_multiset_contains(start, x);
            let j = choose|j: int| 0 <= j < start.len() && start[j] == x;
            assert(start[j] == j);
        }
        assert forall|k: usize| k < n implies #[trigger] order@.contains(k) by {
            assert(start[k as int] == k);
            assert(start.contains(k));
            to_multiset_contains(start, k);
            to_multiset_contains(order@, k);
        }
    }
    order
}

/// Whether `order` is an order of trial for `n` candidates.
pub fn check_order(order: &Vec<usize>, n: usize) -> (b: bool)
    ensures
        b == is_permutation(order@, n as nat),
{
    if order.len() != n {
        return false;
    }
    let mut seen: Vec<bool> = Vec::new();
    let mut m: usize = 0;
    while m < n
        invariant
            m <= n,
            seen@.len() == m,
            forall|k: int| 0 <= k < m ==> !seen@[k],
        decreases n - m,
    {
        seen.push(false);
        m = m + 1;
    }
    let mut i: usize = 0;
    while i < n
        invariant
            i <= n,
            order@.len() == n,
            seen@.len() == n,
            forall|j: int| 0 <= j < i ==> #[trigger] order@[j] < n,
            forall|k: int|
                0 <= k < n ==> (#[trigger] seen@[k] <==> exists|j: int|
                    0 <= j < i && #[trigger] order@[j] == k),
        decreases n - i,
    {
        let place: usize = order[i];
        if place >= n {
            return false;
        }
        let ghost before = seen@;
        seen.set(place, true);
        proof {
            assert forall|k: int| 0 <= k < n implies (#[trigger] seen@[k] <==> exists|j: int|
                0 <= j < i + 1 && #[trigger] order@[j] == k) by {
                if k == place {
                    assert(order@[i as int] == k);
                } else if seen@[k] {
                    assert(before[k]);
                    let j = choose|j: int| 0 <= j < i && #[trigger] order@[j] == k;
                    assert(0 <= j < i + 1 && order@[j] == k);
                } else {
                    assert(!before[k]);
                }
            }
        }
        i = i + 1;
    }
    let mut k: usize = 0;
    while k < n
        invariant
            k <= n,
            order@.len() == n,
            seen@.len() == n,
            forall|j: int| 0 <= j < n ==> #[trigger] order@[j] < n,
            forall|k: int|
                0 <= k < n ==> (#[trigger] seen@[k] <==> exists|j: int|
                    0 <= j < n && #[trigger] order@[j] == k),
            forall|m: usize| m < k ==> #[trigger] order@.contains(m),
        decreases n - k,
    {
        if !seen[k] {
            proof {
                assert(!seen@[k as int]);
                if order@.contains(k) {
                    let j = choose|j: int| 0 <= j < order@.len() && order@[j] == k;
                    assert(order@[j] == k as int);
                }
            }
            return false;
        }
        proof {
            let j = choose|j: int| 0 <= j < n && #[trigger] order@[j] == k as int;
            assert(order@[j] == k);
        }
        k = k + 1;
    }
    true
}

/// The candidates in the order of trial that `order` gives.
fn arrange(candidates: &Vec<Combo>, order: &Vec<usize>) -> (trial: Vec<Combo>)
    requires
        forall|i: int| 0 <= i < order@.len() ==> #[trigger] order@[i] < candidates@.len(),
    ensures
        combo_views(trial@) == trial_order(combo_views(candidates@), order@),
{
    let mut trial: Vec<Combo> = Vec::new();
    let mut i: usize = 0;
    while i < order.len()
        invariant
            i <= order.len(),
            trial@.len() == i,
            forall|i: int| 0 <= i < order@.len() ==> #[trigger] order@[i] < candidates@.len(),
            forall|k: int|
                0 <= k < i ==> (#[trigger] trial@[k])@ == candidates@[order@[k] as int]@,
        decreases order.len() - i,
    {
        let combo = candidates[order[i]].clone();
        trial.push(combo);
        i = i + 1;
    }
    proof {
        assert(combo_views(trial@) =~= trial_order(combo_views(candidates@), order@));
    }
    trial
}

/// Fills the farm from `candidates`, tried in the order `order`.
fn fill(
    candidates: &Vec<Combo>,
    order: Vec<usize>,
    season: &Seasons,
    farm_size: &FarmSize,
    ratio: &CropRatios,
    seeds: &SeedCounts,
) -> (a: Allocation)
    requires
        is_permutation(order@, candidates@.len()),
        forall|i: int|
            0 <= i < candidates@.len() ==> fits(
                #[trigger] combo_views(candidates@)[i],
                *season,
                *ratio,
            ),
    ensures
        a.order@ == order@,
        is_allocation(a, combo_views(candidates@), seeds@, *ratio, *farm_size),
        a.combos@.len() <= ratio.capacity(*farm_size),
        forall|k: int|
            0 <= k < a.combos@.len() ==> fits((#[trigger] a.combos@[k])@, *season, *ratio),
        forall|p: Plant| #[trigger] a.remaining@[p] <= seeds@[p],
{
    let trial = arrange(candidates, &order);
    let (combos, remaining) = plant_in_order(
        &trial,
        *seeds,
        ratio.get_min_seeds_per_crop(),
        ratio.get_filled_size(farm_size),
    );
    let a = Allocation { combos, remaining, order };
    proof {
        let listed = combo_views(candidates@);
        lemma_allocation_bounds(a, listed, seeds@, *ratio, *farm_size);
        assert forall|k: int| 0 <= k < a.combos@.len() implies fits(
            (#[trigger] a.combos@[k])@,
            *season,
            *ratio,
        ) by {
            let c = a.combos@[k]@;
            assert(listed.contains(c));
            let i = choose|i: int| 0 <= i < listed.len() && listed[i] == c;
            assert(fits(listed[i], *season, *ratio));
        }
    }
    a
}

/// What holds of every allocation: no more combinations are planted than
/// the farm has slots, each of them is one of the candidates, and no crop
/// has more seeds afterwards than before.
pub proof fn lemma_allocation_bounds(
    a: Allocation,
    candidates: Seq<Seq<Plant>>,
    seeds: Map<Plant, nat>,
    ratio: CropRatios,
    size: FarmSize,
)
    requires
        is_allocation(a, candidates, seeds, ratio, size),
    ensures
        a.combos@.len() <= ratio.capacity(size),
        forall|k: int|
            0 <= k < a.combos@.len() ==> candidates.contains((#[trigger] a.combos@[k])@),
        forall|p: Plant| #[trigger] a.remaining@[p] <= seeds[p],
{
    let trial = trial_order(candidates, a.order@);
    let cost = ratio.seeds_per_role();
    let slots = ratio.capacity(size);
    lemma_picks_in_range(trial, seeds, cost, slots);
    lemma_leftover_never_grows(trial, seeds, cost, slots);
    assert forall|k: int| 0 <= k < a.combos@.len() implies candidates.contains(
        (#[trigger] a.combos@[k])@,
    ) by {
        let i = picks(trial, seeds, cost, slots)[k];
        assert(combo_views(a.combos@)[k] == a.combos@[k]@);
        assert(planted(trial, seeds, cost, slots)[k] == trial[i]);
        assert(trial[i] == candidates[a.order@[i] as int]);
    }
}

/// Two allocations for the same candidates, farm, layout and seeds that
/// tried the candidates in the same order planted the same combinations on
/// the same slots and left the same seeds.
pub proof fn lemma_same_order_same_allocation(
    a: Allocation,
    b: Allocation,
    candidates: Seq<Seq<Plant>>,
    seeds: Map<Plant, nat>,
    ratio: CropRatios,
    size: FarmSize,
)
    requires
        is_allocation(a, candidates, seeds, ratio, size),
        is_allocation(b, candidates, seeds, ratio, size),
        a.order@ == b.order@,
    ensures
        combo_views(a.combos@) == combo_views(b.combos@),
        a.remaining@ == b.remaining@,
{
}

/// Plans the farm: looks up the combinations that the catalog lists for
/// `season` and `ratio`, tries them in the order `order`, and fills the
/// slots of the farm with the seeds at hand.
///
/// `NoCombosAvailable` when the catalog lists nothing for the season and
/// layout; otherwise `InvalidInput` when `order` is not an order of trial
/// for the combinations listed.
pub fn allocate_with_order(
    season: &Seasons,
    farm_size: &FarmSize,
    ratio: &CropRatios,
    seeds: &SeedCounts,
    catalog: &ComboCatalog,
    order: Vec<usize>,
) -> (r: Result<Allocation, PlanError>)
    requires
        catalog.wf(),
    ensures
        match r {
            Ok(a) => {
                &&& catalog.combos(*season, *ratio).len() > 0
                &&& a.order@ == order@
                &&& is_allocation(a, catalog.combos(*season, *ratio), seeds@, *ratio, *farm_size)
                &&& a.combos@.len() <= ratio.capacity(*farm_size)
                &&& forall|k: int|
                    0 <= k < a.combos@.len() ==> fits((#[trigger] a.combos@[k])@, *season, *ratio)
                &&& forall|p: Plant| #[trigger] a.remaining@[p] <= seeds@[p]
            },
            Err(PlanError::NoCombosAvailable) => catalog.combos(*season, *ratio).len() == 0,
            Err(PlanError::InvalidInput) => catalog.combos(*season, *ratio).len() > 0
                && !is_permutation(order@, catalog.combos(*season, *ratio).len()),
        },
{
    match catalog.get_combos(season, ratio) {
        None => Err(PlanError::NoCombosAvailable),
        Some(candidates) => {
            if !check_order(&order, candidates.len()) {
                return Err(PlanError::InvalidInput);
            }
            Ok(fill(&candidates, order, season, farm_size, ratio, seeds))
        },
    }
}

/// Plans the farm: looks up the combinations that the catalog lists for
/// `season` and `ratio`, shuffles them once, and fills the slots of the
/// farm with the seeds at hand, each slot with the first combination in
/// the shuffled order that the seeds still pay for.
///
/// `NoCombosAvailable` when the catalog lists nothing for the season and
/// layout. Which order the shuffle gives is left to chance; the result
/// names it, and is what `allocate_with_order` gives for it.
pub fn allocate(
    season: &Seasons,
    farm_size: &FarmSize,
    ratio: &CropRatios,
    seeds: &SeedCounts,
    catalog: &ComboCatalog,
) -> (r: Result<Allocation, PlanError>)
    requires
        catalog.wf(),
    ensures
        match r {
            Ok(a) => {
                &&& catalog.combos(*season, *ratio).len() > 0
                &&& is_allocation(a, catalog.combos(*season, *ratio), seeds@, *ratio, *farm_size)
                &&& a.combos@.len() <= ratio.capacity(*farm_size)
                &&& forall|k: int|
                    0 <= k < a.combos@.len() ==> fits((#[trigger] a.combos@[k])@, *season, *ratio)
                &&& forall|p: Plant| #[trigger] a.remaining@[p] <= seeds@[p]
            },
            Err(e) => e == PlanError::NoCombosAvailable && catalog.combos(*season, *ratio).len()
                == 0,
        },
{
    match catalog.get_combos(season, ratio) {
        None => Err(PlanError::NoCombosAvailable),
        Some(candidates) => {
            let order = shuffled_order(candidates.len());
            Ok(fill(&candidates, order, season, farm_size, ratio, seeds))
        },
    }
}

} // verus!
