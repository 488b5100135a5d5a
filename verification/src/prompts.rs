//! What is asked of the user, and what is made of the answers: which
//! choices are on offer, which seeds are asked for, and which answers are
//! accepted.

use crate::error::PlanError;
use crate::layout::{CropRatios, FarmSize};
use crate::plant::{Plant, Seasons};
use vstd::prelude::*;
use vstd::string::StringExecFns;

verus! {

/// The layouts that fit a farm of `size`: all four where width and height
/// are even, the two that are one plot high where only the width is even,
/// else the one that takes a single plot.
pub open spec fn layouts_by_size(size: FarmSize) -> Seq<CropRatios> {
    if size.width % 2 == 0 && size.height % 2 == 0 {
        seq![CropRatios::OneOne, CropRatios::TwoOne, CropRatios::OneOneOne, CropRatios::TwoOneOne]
    } else if size.width % 2 == 0 {
        seq![CropRatios::OneOne, CropRatios::TwoOne]
    } else {
        seq![CropRatios::OneOne]
    }
}

/// The layouts on offer for a farm of `size` in `season`: in autumn and
/// spring all that fit the farm; in winter only `OneOneOne`, if it fits; in
/// summer all that fit but `OneOne`.
pub open spec fn layouts_on_offer(size: FarmSize, season: Seasons) -> Seq<CropRatios> {
    match season {
        Seasons::Autumn | Seasons::Spring => layouts_by_size(size),
        Seasons::Winter => if size.width % 2 == 0 && size.height % 2 == 0 {
            seq![CropRatios::OneOneOne]
        } else {
            Seq::empty()
        },
        Seasons::Summer => layouts_by_size(size).skip(1),
    }
}

/// The text that asks for the seeds of `plant`.
pub open spec fn seed_prompt_text(plant: Plant) -> Seq<char> {
    "Enter number of "@ + plant.name_text() + " Seeds ("@ + plant.seed_text() + ")"@
}

/// The layouts on offer for a farm of `size` in `season`, in the order in
/// which they are offered.
pub fn crop_layouts(size: &FarmSize, season: &Seasons) -> (offer: Vec<CropRatios>)
    ensures
        offer@ == layouts_on_offer(*size, *season),
{
    let wide: bool = size.width % 2 == 0;
    let both: bool = wide && size.height % 2 == 0;
    let mut offer: Vec<CropRatios> = Vec::new();
    match season {
        Seasons::Autumn | Seasons::Spring => {
            offer.push(CropRatios::OneOne);
            if wide {
                offer.push(CropRatios::TwoOne);
            }
            if both {
                offer.push(CropRatios::OneOneOne);
                offer.push(CropRatios::TwoOneOne);
            }
        },
        Seasons::Winter => {
            if both {
                offer.push(CropRatios::OneOneOne);
            }
        },
        Seasons::Summer => {
            if wide {
                offer.push(CropRatios::TwoOne);
            }
            if both {
                offer.push(CropRatios::OneOneOne);
                offer.push(CropRatios::TwoOneOne);
            }
        },
    }
    assert(offer@ =~= layouts_on_offer(*size, *season));
    offer
}

/// The layout chosen: the one at the place `choice` among those on offer
/// for a farm of `size` in `season`; `InvalidInput` when nothing is on
/// offer at that place.
pub fn get_crop_ratio(size: &FarmSize, season: &Seasons, choice: usize) -> (r: Result<
    CropRatios,
    PlanError,
>)
    ensures
        r == (if choice < layouts_on_offer(*size, *season).len() {
            Ok::<CropRatios, PlanError>(layouts_on_offer(*size, *season)[choice as int])
        } else {
            Err::<CropRatios, PlanError>(PlanError::InvalidInput)
        }),
{
    let offer: Vec<CropRatios> = crop_layouts(size, season);
    if choice < offer.len() {
        Ok(offer[choice])
    } else {
        Err(PlanError::InvalidInput)
    }
}

/// The season chosen: the one at the place `choice` among the seasons on
/// offer; `InvalidInput` when there is none at that place.
pub fn get_season(choice: usize) -> (r: Result<Seasons, PlanError>)
    ensures
        r == (if choice < Seasons::choices().len() {
            Ok::<Seasons, PlanError>(Seasons::choices()[choice as int])
        } else {
            Err::<Seasons, PlanError>(PlanError::InvalidInput)
        }),
{
    let offer: Vec<Seasons> = Seasons::all();
    if choice < offer.len() {
        Ok(offer[choice])
    } else {
        Err(PlanError::InvalidInput)
    }
}

/// Whether `input` can be the width or the height of a farm: any number
/// but zero. The error is the text to show.
pub fn validate_dimension(input: &u16) -> (r: Result<(), &'static str>)
    ensures
        match r {
            Ok(_) => *input != 0,
            Err(text) => *input == 0 && text@ == "Input cannot be 0"@,
        },
{
    if *input == 0 {
        Err("Input cannot be 0")
    } else {
        Ok(())
    }
}

/// The farm of the width and height entered; `InvalidInput` when either is
/// zero.
pub fn get_farm_size(width: u16, height: u16) -> (r: Result<FarmSize, PlanError>)
    ensures
        r == (if width > 0 && height > 0 {
            Ok::<FarmSize, PlanError>(FarmSize { width, height })
        } else {
            Err::<FarmSize, PlanError>(PlanError::InvalidInput)
        }),
{
    FarmSize::new(width, height)
}

/// The text that asks for the seeds of `plant`, if they are asked for in
/// `season`: a crop that is out of season is not asked for, and counts as
/// none at hand.
pub fn prompt_for_seed(plant: &Plant, season: &Seasons) -> (r: Option<String>)
    ensures
        match r {
            Some(text) => plant.grows_in(*season) && text@ == seed_prompt_text(*plant),
            None => !plant.grows_in(*season),
        },
{
    if !plant.in_season(season) {
        return None;
    }
    let mut text: String = String::from_str("Enter number of ");
    text.append(plant.name());
    text.append(" Seeds (");
    text.append(plant.seed_name());
    text.append(")");
    Some(text)
}

} // verus!
