//! Crop combinations, and the catalog that lists them for each season and
//! layout.

use crate::error::PlanError;
use crate::layout::CropRatios;
use crate::plant::{Plant, Seasons};
use vstd::prelude::*;

verus! {

/// A crop combination: the crops bound to the roles of a layout, in the
/// order of the roles.
#[derive(Debug)]
pub struct Combo {
    pub plants: Vec<Plant>,
}

impl View for Combo {
    type V = Seq<Plant>;

    open spec fn view(&self) -> Seq<Plant> {
        self.plants@
    }
}

impl Clone for Combo {
    fn clone(&self) -> (c: Self)
        ensures
            c@ == self@,
    {
        let mut plants: Vec<Plant> = Vec::new();
        let mut i: usize = 0;
        while i < self.plants.len()
            invariant
                i <= self.plants.len(),
                plants@ == self.plants@.take(i as int),
            decreases self.plants.len() - i,
        {
            plants.push(self.plants[i]);
            i = i + 1;
        }
        Combo { plants }
    }
}

/// The combinations of a list, each as the sequence of its crops.
pub open spec fn combo_views(combos: Seq<Combo>) -> Seq<Seq<Plant>> {
    combos.map_values(|c: Combo| c@)
}

/// Whether `plants` can be planted under `ratio` in `season`: it binds as
/// many crops as the layout has roles, each of them in season.
pub open spec fn fits(plants: Seq<Plant>, season: Seasons, ratio: CropRatios) -> bool {
    &&& plants.len() == ratio.roles()
    &&& forall|i: int| 0 <= i < plants.len() ==> (#[trigger] plants[i]).grows_in(season)
}

impl Combo {
    /// The combination of `plants`, in their order.
    pub fn new(plants: Vec<Plant>) -> (c: Combo)
        ensures
            c@ == plants@,
    {
        Combo { plants }
    }

    /// Whether the combination can be planted under `ratio` in `season`.
    pub fn suits(&self, season: &Seasons, ratio: &CropRatios) -> (b: bool)
        ensures
            b == fits(self@, *season, *ratio),
    {
        if self.plants.len() != ratio.role_count() {
            return false;
        }
        let mut i: usize = 0;
        while i < self.plants.len()
            invariant
                i <= self.plants.len(),
                forall|k: int| 0 <= k < i ==> (#[trigger] self.plants@[k]).grows_in(*season),
            decreases self.plants.len() - i,
        {
            if !self.plants[i].in_season(season) {
                return false;
            }
            i = i + 1;
        }
        true
    }
}

/// One line of a catalog, in the model: a combination and the season and
/// layout it is listed for.
pub ghost struct Listing {
    pub season: Seasons,
    pub ratio: CropRatios,
    pub plants: Seq<Plant>,
}

/// The combinations that `listings` holds for `season` and `ratio`, in the
/// order in which they are listed.
pub open spec fn selected(listings: Seq<Listing>, season: Seasons, ratio: CropRatios) -> Seq<
    Seq<Plant>,
>
    decreases listings.len(),
{
    if listings.len() == 0 {
        Seq::empty()
    } else {
        let before = selected(listings.drop_last(), season, ratio);
        let last = listings.last();
        if last.season == season && last.ratio == ratio {
            before.push(last.plants)
        } else {
            before
        }
    }
}

struct CatalogEntry {
    season: Seasons,
    ratio: CropRatios,
    combo: Combo,
}

/// The catalog of combinations: for each season and layout, the
/// combinations that may be planted, in the order in which they were added.
/// In a well-formed catalog every combination fits the season and layout it
/// is listed for; `new` and `add` make no other.
pub struct ComboCatalog {
    entries: Vec<CatalogEntry>,
}

impl View for ComboCatalog {
    type V = Seq<Listing>;

    /// The lines of the catalog, in the order in which they were added.
    closed spec fn view(&self) -> Seq<Listing> {
        self.entries@.map_values(
            |e: CatalogEntry| Listing { season: e.season, ratio: e.ratio, plants: e.combo@ },
        )
    }
}

impl ComboCatalog {
    /// Every combination fits the season and layout it is listed for.
    pub open spec fn wf(self) -> bool {
        forall|i: int|
            0 <= i < self@.len() ==> fits(
                (#[trigger] self@[i]).plants,
                self@[i].season,
                self@[i].ratio,
            )
    }

    /// The combinations listed for `season` and `ratio`, in order.
    pub open spec fn combos(self, season: Seasons, ratio: CropRatios) -> Seq<Seq<Plant>> {
        selected(self@, season, ratio)
    }

    /// A catalog that lists nothing.
    pub fn new() -> (catalog: ComboCatalog)
        ensures
            catalog@ == Seq::<Listing>::empty(),
            catalog.wf(),
    {
        ComboCatalog { entries: Vec::new() }
    }

    /// Lists `combo` for `season` and `ratio`, behind what is listed
    /// already. A combination that does not fit them is refused with
    /// `InvalidInput`, and the catalog stays as it was.
    pub fn add(&mut self, season: Seasons, ratio: CropRatios, combo: Combo) -> (r: Result<
        (),
        PlanError,
    >)
        requires
            old(self).wf(),
        ensures
            final(self).wf(),
            fits(combo@, season, ratio) ==> r == Ok::<(), PlanError>(()) && final(self)@ == old(
                self,
            )@.push(Listing { season, ratio, plants: combo@ }),
            !fits(combo@, season, ratio) ==> r == Err::<(), PlanError>(PlanError::InvalidInput)
                && final(self)@ == old(self)@,
    {
        if !combo.suits(&season, &ratio) {
            return Err(PlanError::InvalidInput);
        }
        let ghost listing = Listing { season, ratio, plants: combo@ };
        self.entries.push(CatalogEntry { season, ratio, combo });
        proof {
            assert(self@ == old(self)@.push(listing));
            assert forall|i: int| 0 <= i < self@.len() implies fits(
                (#[trigger] self@[i]).plants,
                self@[i].season,
                self@[i].ratio,
            ) by {
                if i < old(self)@.len() {
                    assert(self@[i] == old(self)@[i]);
                }
            }
        }
        Ok(())
    }

    /// The combinations listed for `season` and `ratio`, in order; `None`
    /// when there is none.
    pub fn get_combos(&self, season: &Seasons, ratio: &CropRatios) -> (r: Option<Vec<Combo>>)
        requires
            self.wf(),
        ensures
            match r {
                Some(list) => list@.len() > 0 && combo_views(list@) == self.combos(
                    *season,
                    *ratio,
                ),
                None => self.combos(*season, *ratio).len() == 0,
            },
            forall|i: int|
                0 <= i < self.combos(*season, *ratio).len() ==> fits(
                    #[trigger] self.combos(*season, *ratio)[i],
                    *season,
                    *ratio,
                ),
    {
        let mut list: Vec<Combo> = Vec::new();
        let mut i: usize = 0;
        while i < self.entries.len()
            invariant
                i <= self.entries.len(),
                self.wf(),
                combo_views(list@) == selected(self@.take(i as int), *season, *ratio),
                forall|k: int|
                    0 <= k < list@.len() ==> fits((#[trigger] list@[k])@, *season, *ratio),
            decreases self.entries.len() - i,
        {
            let entry = &self.entries[i];
            proof {
                assert(self@.take(i + 1).drop_last() == self@.take(i as int));
                assert(self@.take(i + 1).last() == self@[i as int]);
            }
            if entry.season == *season && entry.ratio == *ratio {
                let combo = entry.combo.clone();
                list.push(combo);
            }
            i = i + 1;
        }
        proof {
            assert(self@.take(i as int) == self@);
            assert forall|k: int| 0 <= k < self.combos(*season, *ratio).len() implies fits(
                #[trigger] self.combos(*season, *ratio)[k],
                *season,
                *ratio,
            ) by {
                assert(combo_views(list@)[k] == list@[k]@);
            }
        }
        if list.len() == 0 {
            None
        } else {
            Some(list)
        }
    }
}

} // verus!
