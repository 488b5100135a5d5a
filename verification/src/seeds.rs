//! The seed inventory: how many seeds of each crop are at hand.

use crate::error::PlanError;
use crate::plant::{lemma_plant_names_distinct, Plant, Seasons};
use vstd::prelude::*;

verus! {

/// The number of seeds at hand, for each crop.
#[derive(Clone, Copy, Debug, PartialEq, Eq, Structural)]
pub struct SeedCounts {
    pub carrot: u32,
    pub corn: u32,
    pub dragon_fruit: u32,
    pub durian: u32,
    pub eggplant: u32,
    pub pomegranate: u32,
    pub pumpkin: u32,
    pub watermelon: u32,
    pub asparagus: u32,
    pub toma_root: u32,
    pub potato: u32,
    pub onion: u32,
    pub pepper: u32,
    pub garlic: u32,
}

impl View for SeedCounts {
    type V = Map<Plant, nat>;

    /// The inventory as a map that gives every crop its count.
    open spec fn view(&self) -> Map<Plant, nat> {
        Map::new(|p: Plant| true, |p: Plant| self.count(p))
    }
}

/// The crop with the display name `name`, if there is one.
pub open spec fn plant_named(name: Seq<char>) -> Option<Plant> {
    if exists|p: Plant| p.name_text() == name {
        Some(choose|p: Plant| p.name_text() == name)
    } else {
        None
    }
}

impl SeedCounts {
    /// The number of seeds of `plant`.
    pub open spec fn count(self, plant: Plant) -> nat {
        match plant {
            Plant::Carrot => self.carrot as nat,
            Plant::Corn => self.corn as nat,
            Plant::DragonFruit => self.dragon_fruit as nat,
            Plant::Durian => self.durian as nat,
            Plant::Eggplant => self.eggplant as nat,
            Plant::Pomegranate => self.pomegranate as nat,
            Plant::Pumpkin => self.pumpkin as nat,
            Plant::Watermelon => self.watermelon as nat,
            Plant::Asparagus => self.asparagus as nat,
            Plant::TomaRoot => self.toma_root as nat,
            Plant::Potato => self.potato as nat,
            Plant::Onion => self.onion as nat,
            Plant::Pepper => self.pepper as nat,
            Plant::Garlic => self.garlic as nat,
        }
    }

    /// An inventory without seeds.
    pub fn new() -> (s: SeedCounts)
        ensures
            forall|p: Plant| s@[p] == 0,
    {
        SeedCounts {
            carrot: 0,
            corn: 0,
            dragon_fruit: 0,
            durian: 0,
            eggplant: 0,
            pomegranate: 0,
            pumpkin: 0,
            watermelon: 0,
            asparagus: 0,
            toma_root: 0,
            potato: 0,
            onion: 0,
            pepper: 0,
            garlic: 0,
        }
    }

    /// The number of seeds of `plant`.
    pub fn get(&self, plant: Plant) -> (n: u32)
        ensures
            n == self@[plant],
    {
        match plant {
            Plant::Carrot => self.carrot,
            Plant::Corn => self.corn,
            Plant::DragonFruit => self.dragon_fruit,
            Plant::Durian => self.durian,
            Plant::Eggplant => self.eggplant,
            Plant::Pomegranate => self.pomegranate,
            Plant::Pumpkin => self.pumpkin,
            Plant::Watermelon => self.watermelon,
            Plant::Asparagus => self.asparagus,
            Plant::TomaRoot => self.toma_root,
            Plant::Potato => self.potato,
            Plant::Onion => self.onion,
            Plant::Pepper => self.pepper,
            Plant::Garlic => self.garlic,
        }
    }

    /// The count of `plant`, to read and to change: what is written through
    /// the result is the crop's new count, and no other count changes.
    pub fn get_mut(&mut self, plant: Plant) -> (slot: &mut u32)
        ensures
            *slot == old(self)@[plant],
            final(self)@ == old(self)@.insert(plant, *final(slot) as nat),
    {
        match plant {
            Plant::Carrot => &mut self.carrot,
            Plant::Corn => &mut self.corn,
            Plant::DragonFruit => &mut self.dragon_fruit,
            Plant::Durian => &mut self.durian,
            Plant::Eggplant => &mut self.eggplant,
            Plant::Pomegranate => &mut self.pomegranate,
            Plant::Pumpkin => &mut self.pumpkin,
            Plant::Watermelon => &mut self.watermelon,
            Plant::Asparagus => &mut self.asparagus,
            Plant::TomaRoot => &mut self.toma_root,
            Plant::Potato => &mut self.potato,
            Plant::Onion => &mut self.onion,
            Plant::Pepper => &mut self.pepper,
            Plant::Garlic => &mut self.garlic,
        }
    }

    /// Sets the number of seeds of `plant` to `n`; no other count changes.
    pub fn set(&mut self, plant: Plant, n: u32)
        ensures
            final(self)@ == old(self)@.insert(plant, n as nat),
    {
        let slot = self.get_mut(plant);
        *slot = n;
    }

    /// The number of seeds of the crop with the display name `name`;
    /// `InvalidInput` when no crop goes by that name.
    pub fn get_val_from_name(&self, name: &str) -> (r: Result<u32, PlanError>)
        ensures
            match plant_named(name@) {
                Some(plant) => r matches Ok(n) && n == self@[plant],
                None => r == Err::<u32, PlanError>(PlanError::InvalidInput),
            },
    {
        match Plant::from_name(name) {
            Some(plant) => {
                proof {
                    lemma_plant_names_distinct(plant, plant_named(name@).unwrap());
                }
                Ok(self.get(plant))
            },
            None => Err(PlanError::InvalidInput),
        }
    }

    /// The count of the crop with the display name `name`, to read and to
    /// change; `InvalidInput`, and nothing changed, when no crop goes by
    /// that name.
    pub fn get_mut_from_name(&mut self, name: &str) -> (r: Result<&mut u32, PlanError>)
        ensures
            match plant_named(name@) {
                Some(plant) => r matches Ok(slot) && *slot == old(self)@[plant] && final(self)@
                    == old(self)@.insert(plant, *final(slot) as nat),
                None => r matches Err(e) && e == PlanError::InvalidInput && final(self)@ == old(
                    self,
                )@,
            },
    {
        match Plant::from_name(name) {
            Some(plant) => {
                proof {
                    lemma_plant_names_distinct(plant, plant_named(name@).unwrap());
                }
                Ok(self.get_mut(plant))
            },
            None => Err(PlanError::InvalidInput),
        }
    }
}

/// The crops whose seeds are asked for in `season`, among the first `n` of
/// the catalog: those that are in season, in the order of the catalog.
pub open spec fn asked_upto(season: Seasons, n: nat) -> Seq<Plant>
    decreases n,
{
    if n == 0 {
        Seq::empty()
    } else {
        let before = asked_upto(season, (n - 1) as nat);
        if Plant::catalog()[n - 1].grows_in(season) {
            before.push(Plant::catalog()[n - 1])
        } else {
            before
        }
    }
}

/// The crops whose seeds are asked for in `season`, in the order in which
/// they are asked for.
pub open spec fn asked(season: Seasons) -> Seq<Plant> {
    asked_upto(season, 14)
}

/// The inventory that the answers give: for a crop in season the answer at
/// the place that the crop has among those asked for, for another none.
pub open spec fn counts_from(season: Seasons, answers: Seq<u32>) -> Map<Plant, nat> {
    Map::new(
        |p: Plant| true,
        |p: Plant|
            if p.grows_in(season) {
                answers[asked_upto(season, p.position() as nat).len() as int] as nat
            } else {
                0nat
            },
    )
}

/// With more of the catalog looked at, no fewer crops are asked for.
pub proof fn lemma_asked_grows(season: Seasons, n: nat, m: nat)
    requires
        n <= m,
    ensures
        asked_upto(season, n).len() <= asked_upto(season, m).len(),
    decreases m - n,
{
    if n < m {
        lemma_asked_grows(season, n, (m - 1) as nat);
    }
}

/// Each crop stands in the catalog at its own place.
proof fn lemma_catalog_places(i: int)
    requires
        0 <= i < 14,
    ensures
        Plant::catalog()[i].position() == i,
{
    if i < 4 {
    } else if i < 8 {
    } else if i < 11 {
    } else {
    }
}

/// Whoever is asked for is in season, and stands among those asked for
/// behind those that come before it in the catalog.
proof fn lemma_asked_place(season: Seasons, n: nat, j: int)
    requires
        n <= 14,
        0 <= j < asked_upto(season, n).len(),
    ensures
        asked_upto(season, n)[j].grows_in(season),
        asked_upto(season, n)[j].position() < n,
        asked_upto(season, asked_upto(season, n)[j].position() as nat).len() == j,
    decreases n,
{
    if n > 0 {
        let before = asked_upto(season, (n - 1) as nat);
        if j < before.len() {
            lemma_asked_place(season, (n - 1) as nat, j);
        } else {
            lemma_catalog_places(n - 1);
        }
    }
}

/// The answers reach the crops in the order of asking: the crop asked for
/// at place `j` gets the answer at place `j`.
pub proof fn lemma_answers_by_place(season: Seasons, answers: Seq<u32>, j: int)
    requires
        0 <= j < asked(season).len(),
    ensures
        asked(season)[j].grows_in(season),
        counts_from(season, answers)[asked(season)[j]] == answers[j],
{
    lemma_asked_place(season, 14, j);
}

/// The crops whose seeds are asked for in `season`, in the order in which
/// they are asked for.
pub fn seed_prompts(season: &Seasons) -> (plants: Vec<Plant>)
    ensures
        plants@ == asked(*season),
{
    let catalog: Vec<Plant> = Plant::all();
    let mut plants: Vec<Plant> = Vec::new();
    let mut i: usize = 0;
    while i < 14
        invariant
            i <= 14,
            catalog@ == Plant::catalog(),
            plants@ == asked_upto(*season, i as nat),
        decreases 14 - i,
    {
        if catalog[i].in_season(season) {
            plants.push(catalog[i]);
        }
        i = i + 1;
    }
    plants
}

/// The inventory that the answers give. `answers` holds one count for each
/// crop asked for in `season`, in the order of `seed_prompts`; a crop that
/// is out of season has none. `InvalidInput` when there are more or fewer
/// answers than crops asked for.
pub fn get_seed_counts(season: &Seasons, answers: &Vec<u32>) -> (r: Result<SeedCounts, PlanError>)
    ensures
        match r {
            Ok(counts) => answers@.len() == asked(*season).len() && counts@ == counts_from(
                *season,
                answers@,
            ),
            Err(e) => e == PlanError::InvalidInput && answers@.len() != asked(*season).len(),
        },
{
    let prompts: Vec<Plant> = seed_prompts(season);
    if answers.len() != prompts.len() {
        return Err(PlanError::InvalidInput);
    }
    let catalog: Vec<Plant> = Plant::all();
    let mut counts: SeedCounts = SeedCounts::new();
    let mut i: usize = 0;
    let mut j: usize = 0;
    while i < 14
        invariant
            i <= 14,
            catalog@ == Plant::catalog(),
            answers@.len() == asked(*season).len(),
            j == asked_upto(*season, i as nat).len(),
            j <= i,
            forall|p: Plant|
                #[trigger] counts@[p] == (if p.position() < i {
                    counts_from(*season, answers@)[p]
                } else {
                    0nat
                }),
        decreases 14 - i,
    {
        let plant: Plant = catalog[i];
        assert(plant.position() == i);
        if plant.in_season(season) {
            proof {
                lemma_asked_grows(*season, (i + 1) as nat, 14);
            }
            assert(j < answers@.len());
            let ghost before = counts@;
            counts.set(plant, answers[j]);
            proof {
                assert forall|p: Plant|
                    #[trigger] counts@[p] == (if p.position() < i + 1 {
                        counts_from(*season, answers@)[p]
                    } else {
                        0nat
                    }) by {
                    if p != plant {
                        assert(p.position() != i);
                        assert(counts@[p] == before[p]);
                    }
                }
            }
            j = j + 1;
        } else {
            proof {
                assert forall|p: Plant|
                    #[trigger] counts@[p] == (if p.position() < i + 1 {
                        counts_from(*season, answers@)[p]
                    } else {
                        0nat
                    }) by {
                    if p.position() == i {
                        assert(p == plant);
                    }
                }
            }
        }
        i = i + 1;
    }
    assert(counts@ =~= counts_from(*season, answers@));
    Ok(counts)
}

} // verus!
