//! The model of an allocation: what is planted, slot by slot, and what it
//! costs, stated over sequences of crops and maps of seed counts; and what
//! holds of every allocation.
//!
//! The candidates are tried in one fixed order. Each slot takes the first
//! candidate in that order that the seeds still pay for; a slot for which
//! there is none stays empty.

use crate::plant::Plant;
use vstd::prelude::*;

verus! {

/// How many of the bindings of `combo` name `plant`.
pub open spec fn occurrences(combo: Seq<Plant>, plant: Plant) -> nat
    decreases combo.len(),
{
    if combo.len() == 0 {
        0
    } else {
        occurrences(combo.drop_last(), plant) + if combo.last() == plant {
            1nat
        } else {
            0nat
        }
    }
}

/// Whether `seeds` pays for one planting of `combo`, at `cost` seeds for
/// each binding.
pub open spec fn affordable(seeds: Map<Plant, nat>, combo: Seq<Plant>, cost: nat) -> bool {
    forall|p: Plant| cost * #[trigger] occurrences(combo, p) <= seeds[p]
}

/// The seeds that are left of `seeds` after one planting of `combo`, which
/// `seeds` pays for.
pub open spec fn spend(seeds: Map<Plant, nat>, combo: Seq<Plant>, cost: nat) -> Map<Plant, nat> {
    Map::new(
        |p: Plant| true,
        |p: Plant|
            if cost * occurrences(combo, p) <= seeds[p] {
                (seeds[p] - cost * occurrences(combo, p)) as nat
            } else {
                0nat
            },
    )
}

/// The first place at or behind `from` in `order` whose combination `seeds`
/// pays for; the length of `order` when there is none.
pub open spec fn first_fit(
    order: Seq<Seq<Plant>>,
    seeds: Map<Plant, nat>,
    cost: nat,
    from: int,
) -> int
    decreases order.len() - from,
{
    if from >= order.len() {
        order.len() as int
    } else if affordable(seeds, order[from], cost) {
        from
    } else {
        first_fit(order, seeds, cost, from + 1)
    }
}

/// The places in `order` of the combinations planted on `slots` slots, slot
/// by slot, starting with `seeds`. A slot for which nothing is affordable
/// adds nothing.
pub open spec fn picks(order: Seq<Seq<Plant>>, seeds: Map<Plant, nat>, cost: nat, slots: nat) -> Seq<
    int,
>
    decreases slots,
{
    if slots == 0 {
        Seq::empty()
    } else {
        let i = first_fit(order, seeds, cost, 0);
        if i < order.len() {
            seq![i] + picks(order, spend(seeds, order[i], cost), cost, (slots - 1) as nat)
        } else {
            picks(order, seeds, cost, (slots - 1) as nat)
        }
    }
}

/// The seeds that are left after `slots` slots.
pub open spec fn leftover(
    order: Seq<Seq<Plant>>,
    seeds: Map<Plant, nat>,
    cost: nat,
    slots: nat,
) -> Map<Plant, nat>
    decreases slots,
{
    if slots == 0 {
        seeds
    } else {
        let i = first_fit(order, seeds, cost, 0);
        if i < order.len() {
            leftover(order, spend(seeds, order[i], cost), cost, (slots - 1) as nat)
        } else {
            leftover(order, seeds, cost, (slots - 1) as nat)
        }
    }
}

/// The combinations planted on `slots` slots, in the order of the slots.
pub open spec fn planted(
    order: Seq<Seq<Plant>>,
    seeds: Map<Plant, nat>,
    cost: nat,
    slots: nat,
) -> Seq<Seq<Plant>> {
    picks(order, seeds, cost, slots).map_values(|i: int| order[i])
}

/// One more binding adds one occurrence of its crop, and none of another.
pub proof fn lemma_occurrences_step(combo: Seq<Plant>, i: int, plant: Plant)
    requires
        0 <= i < combo.len(),
    ensures
        occurrences(combo.take(i + 1), plant) == occurrences(combo.take(i), plant) + if combo[i]
            == plant {
            1nat
        } else {
            0nat
        },
{
    assert(combo.take(i + 1).drop_last() == combo.take(i));
}

/// A part of a combination binds a crop no more often than the whole.
pub proof fn lemma_occurrences_prefix(combo: Seq<Plant>, i: int, plant: Plant)
    requires
        0 <= i <= combo.len(),
    ensures
        occurrences(combo.take(i), plant) <= occurrences(combo, plant),
    decreases combo.len() - i,
{
    if i < combo.len() {
        lemma_occurrences_step(combo, i, plant);
        lemma_occurrences_prefix(combo, i + 1, plant);
    } else {
        assert(combo.take(i) == combo);
    }
}

/// Seeds are only ever spent: what one planting leaves never pays for a
/// combination that was out of reach before it.
pub proof fn lemma_spending_keeps_unaffordable(
    seeds: Map<Plant, nat>,
    spent: Seq<Plant>,
    combo: Seq<Plant>,
    cost: nat,
)
    requires
        !affordable(seeds, combo, cost),
    ensures
        !affordable(spend(seeds, spent, cost), combo, cost),
{
    let p = choose|p: Plant| !(cost * #[trigger] occurrences(combo, p) <= seeds[p]);
    assert(spend(seeds, spent, cost)[p] <= seeds[p]);
}

/// Where `first_fit` lands: at or behind `from`, on a combination that the
/// seeds pay for unless it is the end of the list, and behind every
/// combination from `from` on that they do not pay for.
pub proof fn lemma_first_fit(order: Seq<Seq<Plant>>, seeds: Map<Plant, nat>, cost: nat, from: int)
    requires
        0 <= from <= order.len(),
    ensures
        from <= first_fit(order, seeds, cost, from) <= order.len(),
        first_fit(order, seeds, cost, from) < order.len() ==> affordable(
            seeds,
            order[first_fit(order, seeds, cost, from)],
            cost,
        ),
        forall|i: int|
            from <= i < first_fit(order, seeds, cost, from) ==> !affordable(
                seeds,
                #[trigger] order[i],
                cost,
            ),
    decreases order.len() - from,
{
    if from < order.len() && !affordable(seeds, order[from], cost) {
        lemma_first_fit(order, seeds, cost, from + 1);
    }
}

/// The candidate taken for the slot numbered `slot`, counted from zero, as
/// its place in `order`; the length of `order` when the slot stays empty.
pub open spec fn pick_at(order: Seq<Seq<Plant>>, seeds: Map<Plant, nat>, cost: nat, slot: nat) -> int {
    first_fit(order, leftover(order, seeds, cost, slot), cost, 0)
}

/// How many bindings of `plant` the plantings `combos` hold together.
pub open spec fn planted_count(combos: Seq<Seq<Plant>>, plant: Plant) -> nat
    decreases combos.len(),
{
    if combos.len() == 0 {
        0
    } else {
        occurrences(combos.first(), plant) + planted_count(combos.drop_first(), plant)
    }
}

/// No more combinations are planted than there are slots, and each is one
/// of the candidates.
pub proof fn lemma_picks_in_range(
    order: Seq<Seq<Plant>>,
    seeds: Map<Plant, nat>,
    cost: nat,
    slots: nat,
)
    ensures
        picks(order, seeds, cost, slots).len() <= slots,
        planted(order, seeds, cost, slots).len() <= slots,
        forall|k: int|
            0 <= k < picks(order, seeds, cost, slots).len() ==> 0 <= #[trigger] picks(
                order,
                seeds,
                cost,
                slots,
            )[k] < order.len(),
    decreases slots,
{
    if slots > 0 {
        let i = first_fit(order, seeds, cost, 0);
        lemma_first_fit(order, seeds, cost, 0);
        if i < order.len() {
            lemma_picks_in_range(order, spend(seeds, order[i], cost), cost, (slots - 1) as nat);
        } else {
            lemma_picks_in_range(order, seeds, cost, (slots - 1) as nat);
        }
    }
}

/// Once nothing is affordable, nothing is planted and no seed is spent.
pub proof fn lemma_nothing_fits(order: Seq<Seq<Plant>>, seeds: Map<Plant, nat>, cost: nat, slots: nat)
    requires
        first_fit(order, seeds, cost, 0) == order.len(),
    ensures
        picks(order, seeds, cost, slots) == Seq::<int>::empty(),
        leftover(order, seeds, cost, slots) == seeds,
    decreases slots,
{
    if slots > 0 {
        lemma_nothing_fits(order, seeds, cost, (slots - 1) as nat);
    }
}

/// Slots stay empty only for want of seeds: where fewer combinations are
/// planted than there are slots, the seeds that are left pay for none of
/// the candidates.
pub proof fn lemma_short_only_for_want_of_seeds(
    order: Seq<Seq<Plant>>,
    seeds: Map<Plant, nat>,
    cost: nat,
    slots: nat,
)
    requires
        planted(order, seeds, cost, slots).len() < slots,
    ensures
        forall|i: int|
            0 <= i < order.len() ==> !affordable(
                leftover(order, seeds, cost, slots),
                #[trigger] order[i],
                cost,
            ),
    decreases slots,
{
    let i = first_fit(order, seeds, cost, 0);
    lemma_first_fit(order, seeds, cost, 0);
    if i < order.len() {
        lemma_short_only_for_want_of_seeds(
            order,
            spend(seeds, order[i], cost),
            cost,
            (slots - 1) as nat,
        );
    } else {
        lemma_nothing_fits(order, seeds, cost, slots);
    }
}

/// The inventory never grows: after any number of slots no crop has more
/// seeds than at the start.
pub proof fn lemma_leftover_never_grows(
    order: Seq<Seq<Plant>>,
    seeds: Map<Plant, nat>,
    cost: nat,
    slots: nat,
)
    ensures
        forall|p: Plant| #[trigger] leftover(order, seeds, cost, slots)[p] <= seeds[p],
    decreases slots,
{
    let i = first_fit(order, seeds, cost, 0);
    let next = if i < order.len() {
        spend(seeds, order[i], cost)
    } else {
        seeds
    };
    if slots > 0 {
        lemma_leftover_never_grows(order, next, cost, (slots - 1) as nat);
    }
    assert forall|p: Plant| #[trigger] leftover(order, seeds, cost, slots)[p] <= seeds[p] by {
        if slots > 0 {
            assert(leftover(order, seeds, cost, slots) == leftover(
                order,
                next,
                cost,
                (slots - 1) as nat,
            ));
            assert(leftover(order, next, cost, (slots - 1) as nat)[p] <= next[p]);
            assert(next[p] <= seeds[p]);
        } else {
            assert(leftover(order, seeds, cost, slots) == seeds);
        }
    }
}

/// Every seed is accounted for: for each crop, the seeds at the start are
/// the seeds that are left and `cost` seeds for each of its bindings in
/// what was planted. So no more seeds of a crop are used than there were.
pub proof fn lemma_seeds_accounted(
    order: Seq<Seq<Plant>>,
    seeds: Map<Plant, nat>,
    cost: nat,
    slots: nat,
    plant: Plant,
)
    ensures
        seeds[plant] == leftover(order, seeds, cost, slots)[plant] + cost * planted_count(
            planted(order, seeds, cost, slots),
            plant,
        ),
        cost * planted_count(planted(order, seeds, cost, slots), plant) <= seeds[plant],
    decreases slots,
{
    if slots == 0 {
        assert(cost * 0 == 0);
    } else {
        let i = first_fit(order, seeds, cost, 0);
        lemma_first_fit(order, seeds, cost, 0);
        if i < order.len() {
            let next = spend(seeds, order[i], cost);
            let rest = planted(order, next, cost, (slots - 1) as nat);
            let all = planted(order, seeds, cost, slots);
            lemma_seeds_accounted(order, next, cost, (slots - 1) as nat, plant);
            assert(all == seq![order[i]] + rest);
            assert(all.drop_first() == rest);
            let a = occurrences(order[i], plant);
            let b = planted_count(rest, plant);
            assert(cost * (a + b) == cost * a + cost * b) by (nonlinear_arith);
        } else {
            lemma_seeds_accounted(order, seeds, cost, (slots - 1) as nat, plant);
        }
    }
}

/// The seeds after `a + b` slots are the seeds after `b` more slots,
/// starting from what `a` slots left.
pub proof fn lemma_leftover_split(
    order: Seq<Seq<Plant>>,
    seeds: Map<Plant, nat>,
    cost: nat,
    a: nat,
    b: nat,
)
    ensures
        leftover(order, seeds, cost, a + b) == leftover(
            order,
            leftover(order, seeds, cost, a),
            cost,
            b,
        ),
    decreases a,
{
    if a > 0 {
        let i = first_fit(order, seeds, cost, 0);
        let next = if i < order.len() {
            spend(seeds, order[i], cost)
        } else {
            seeds
        };
        lemma_leftover_split(order, next, cost, (a - 1) as nat, b);
        assert(leftover(order, seeds, cost, a + b) == leftover(
            order,
            next,
            cost,
            (a + b - 1) as nat,
        ));
    }
}

/// One more slot adds the candidate taken for it, if there is one, behind
/// what the slots before it planted.
pub proof fn lemma_picks_by_slot(order: Seq<Seq<Plant>>, seeds: Map<Plant, nat>, cost: nat, slots: nat)
    ensures
        picks(order, seeds, cost, slots + 1) == picks(order, seeds, cost, slots) + (if pick_at(
            order,
            seeds,
            cost,
            slots,
        ) < order.len() {
            seq![pick_at(order, seeds, cost, slots)]
        } else {
            Seq::<int>::empty()
        }),
    decreases slots,
{
    let i = first_fit(order, seeds, cost, 0);
    if slots == 0 {
        assert(picks(order, seeds, cost, 0) == Seq::<int>::empty());
        if i < order.len() {
            assert(picks(order, spend(seeds, order[i], cost), cost, 0) == Seq::<int>::empty());
            assert(picks(order, seeds, cost, 1) == seq![i] + Seq::<int>::empty());
        } else {
            assert(picks(order, seeds, cost, 1) == picks(order, seeds, cost, 0));
        }
    } else {
        let next = if i < order.len() {
            spend(seeds, order[i], cost)
        } else {
            seeds
        };
        lemma_picks_by_slot(order, next, cost, (slots - 1) as nat);
        assert(pick_at(order, next, cost, (slots - 1) as nat) == pick_at(
            order,
            seeds,
            cost,
            slots,
        ));
    }
}

/// A combination that the seeds do not pay for stays out of reach however
/// many slots are filled after.
pub proof fn lemma_unaffordable_after(
    order: Seq<Seq<Plant>>,
    seeds: Map<Plant, nat>,
    cost: nat,
    slots: nat,
    combo: Seq<Plant>,
)
    requires
        !affordable(seeds, combo, cost),
    ensures
        !affordable(leftover(order, seeds, cost, slots), combo, cost),
    decreases slots,
{
    if slots > 0 {
        let i = first_fit(order, seeds, cost, 0);
        if i < order.len() {
            lemma_spending_keeps_unaffordable(seeds, order[i], combo, cost);
            lemma_unaffordable_after(
                order,
                spend(seeds, order[i], cost),
                cost,
                (slots - 1) as nat,
                combo,
            );
        } else {
            lemma_unaffordable_after(order, seeds, cost, (slots - 1) as nat, combo);
        }
    }
}

/// Pruning is for good: a candidate that the seeds did not pay for when
/// slot `a` was filled is not the one taken for slot `a` or for any slot
/// after it.
pub proof fn lemma_pruned_for_good(
    order: Seq<Seq<Plant>>,
    seeds: Map<Plant, nat>,
    cost: nat,
    i: int,
    a: nat,
    b: nat,
)
    requires
        0 <= i < order.len(),
        a <= b,
        !affordable(leftover(order, seeds, cost, a), order[i], cost),
    ensures
        !affordable(leftover(order, seeds, cost, b), order[i], cost),
        pick_at(order, seeds, cost, b) != i,
{
    lemma_leftover_split(order, seeds, cost, a, (b - a) as nat);
    lemma_unaffordable_after(
        order,
        leftover(order, seeds, cost, a),
        cost,
        (b - a) as nat,
        order[i],
    );
    lemma_first_fit(order, leftover(order, seeds, cost, b), cost, 0);
}

} // verus!
