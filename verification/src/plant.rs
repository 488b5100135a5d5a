//! The crops and the seasons of the planting calendar.

use crate::error::PlanError;
use vstd::prelude::*;

verus! {

/// True exactly when the two texts hold the same characters.
pub fn same_text(a: &str, b: &str) -> (r: bool)
    ensures
        r == (a@ == b@),
{
    a.to_owned() == b.to_owned()
}

/// A season of the planting calendar.
#[derive(Clone, Copy, Debug, PartialEq, Eq, Structural)]
pub enum Seasons {
    Autumn,
    Winter,
    Spring,
    Summer,
}

impl Seasons {
    /// The seasons in the order in which they are offered for choice.
    pub open spec fn choices() -> Seq<Seasons> {
        seq![Seasons::Autumn, Seasons::Winter, Seasons::Spring, Seasons::Summer]
    }

    /// The label of a season, in the model.
    pub open spec fn label_text(self) -> Seq<char> {
        match self {
            Seasons::Autumn => "Autumn"@,
            Seasons::Winter => "Winter"@,
            Seasons::Spring => "Spring"@,
            Seasons::Summer => "Summer"@,
        }
    }

    /// The seasons, in the order of `choices`.
    pub fn all() -> (v: Vec<Seasons>)
        ensures
            v@ == Seasons::choices(),
    {
        vec![Seasons::Autumn, Seasons::Winter, Seasons::Spring, Seasons::Summer]
    }

    /// The label under which the season is shown.
    pub fn label(&self) -> (s: &'static str)
        ensures
            s@ == self.label_text(),
    {
        match self {
            Seasons::Autumn => "Autumn",
            Seasons::Winter => "Winter",
            Seasons::Spring => "Spring",
            Seasons::Summer => "Summer",
        }
    }

    /// The season that goes by `label`; `InvalidInput` when none does.
    pub fn from_label(label: &str) -> (r: Result<Seasons, PlanError>)
        ensures
            match r {
                Ok(season) => season.label_text() == label@,
                Err(e) => e == PlanError::InvalidInput && forall|s: Seasons|
                    s.label_text() != label@,
            },
    {
        if same_text(label, "Autumn") {
            Ok(Seasons::Autumn)
        } else if same_text(label, "Winter") {
            Ok(Seasons::Winter)
        } else if same_text(label, "Spring") {
            Ok(Seasons::Spring)
        } else if same_text(label, "Summer") {
            Ok(Seasons::Summer)
        } else {
            Err(PlanError::InvalidInput)
        }
    }
}

/// No two seasons share a label, so a label names at most one season.
pub proof fn lemma_season_labels_distinct(a: Seasons, b: Seasons)
    requires
        a.label_text() == b.label_text(),
    ensures
        a == b,
{
    lemma_season_label_mark(a);
    lemma_season_label_mark(b);
}

/// The third letter of each season's label.
proof fn lemma_season_label_mark(s: Seasons)
    ensures
        s.label_text()[2] == match s {
            Seasons::Autumn => 't',
            Seasons::Winter => 'n',
            Seasons::Spring => 'r',
            Seasons::Summer => 'm',
        },
{
    reveal_strlit("Autumn");
    reveal_strlit("Winter");
    reveal_strlit("Spring");
    reveal_strlit("Summer");
}

/// A kind of crop.
#[derive(Clone, Copy, Debug, PartialEq, Eq, Structural)]
pub enum Plant {
    Carrot,
    Corn,
    DragonFruit,
    Durian,
    Eggplant,
    Pomegranate,
    Pumpkin,
    Watermelon,
    Asparagus,
    TomaRoot,
    Potato,
    Onion,
    Pepper,
    Garlic,
}

impl Plant {
    /// Every crop once, in the order in which seeds are asked for.
    pub open spec fn catalog() -> Seq<Plant> {
        seq![
            Plant::Carrot,
            Plant::Corn,
            Plant::DragonFruit,
            Plant::Durian,
            Plant::Eggplant,
            Plant::Pomegranate,
            Plant::Pumpkin,
            Plant::Watermelon,
            Plant::Asparagus,
            Plant::TomaRoot,
            Plant::Potato,
            Plant::Onion,
            Plant::Pepper,
            Plant::Garlic,
        ]
    }

    /// The place of the crop in `catalog`.
    pub open spec fn position(self) -> int {
        match self {
            Plant::Carrot => 0,
            Plant::Corn => 1,
            Plant::DragonFruit => 2,
            Plant::Durian => 3,
            Plant::Eggplant => 4,
            Plant::Pomegranate => 5,
            Plant::Pumpkin => 6,
            Plant::Watermelon => 7,
            Plant::Asparagus => 8,
            Plant::TomaRoot => 9,
            Plant::Potato => 10,
            Plant::Onion => 11,
            Plant::Pepper => 12,
            Plant::Garlic => 13,
        }
    }

    /// The display name of the crop, in the model.
    pub open spec fn name_text(self) -> Seq<char> {
        match self {
            Plant::Carrot => "Carrot"@,
            Plant::Corn => "Corn"@,
            Plant::DragonFruit => "Dragon Fruit"@,
            Plant::Durian => "Durian"@,
            Plant::Eggplant => "Eggplant"@,
            Plant::Pomegranate => "Pomegranate"@,
            Plant::Pumpkin => "Pumpkin"@,
            Plant::Watermelon => "Watermelon"@,
            Plant::Asparagus => "Asparagus"@,
            Plant::TomaRoot => "Toma Root"@,
            Plant::Potato => "Potato"@,
            Plant::Onion => "Onion"@,
            Plant::Pepper => "Pepper"@,
            Plant::Garlic => "Garlic"@,
        }
    }

    /// The name of the crop's seeds, in the model.
    pub open spec fn seed_text(self) -> Seq<char> {
        match self {
            Plant::Carrot => "Oblong Seeds"@,
            Plant::Corn => "Clustered Seeds"@,
            Plant::DragonFruit => "Bulbous Seeds"@,
            Plant::Durian => "Brittle Seed Pods"@,
            Plant::Eggplant => "Swirly Seeds"@,
            Plant::Pomegranate => "Windblown Seeds"@,
            Plant::Pumpkin => "Sharp Seeds"@,
            Plant::Watermelon => "Square Seeds"@,
            Plant::Asparagus => "Tubular Seeds"@,
            Plant::TomaRoot => "Spiky Seeds"@,
            Plant::Potato => "Fluffy Seeds"@,
            Plant::Onion => "Pointy Seeds"@,
            Plant::Pepper => "Lumpy Seeds"@,
            Plant::Garlic => "Seed Pods"@,
        }
    }

    /// The planting calendar: whether the crop may be planted in `season`.
    pub open spec fn grows_in(self, season: Seasons) -> bool {
        match self {
            Plant::Carrot => season != Seasons::Summer,
            Plant::Corn => season != Seasons::Winter,
            Plant::DragonFruit => season == Seasons::Spring || season == Seasons::Summer,
            Plant::Durian => season == Seasons::Spring,
            Plant::Eggplant => season == Seasons::Autumn || season == Seasons::Spring,
            Plant::Pomegranate => season == Seasons::Spring || season == Seasons::Summer,
            Plant::Pumpkin => season == Seasons::Autumn || season == Seasons::Winter,
            Plant::Watermelon => season == Seasons::Spring || season == Seasons::Summer,
            Plant::Asparagus => season == Seasons::Winter || season == Seasons::Spring,
            Plant::TomaRoot => season != Seasons::Winter,
            Plant::Potato => season != Seasons::Summer,
            Plant::Onion => season != Seasons::Winter,
            Plant::Pepper => season == Seasons::Autumn || season == Seasons::Summer,
            Plant::Garlic => true,
        }
    }

    /// Every crop once, in the order of `catalog`.
    pub fn all() -> (v: Vec<Plant>)
        ensures
            v@ == Plant::catalog(),
    {
        vec![
            Plant::Carrot,
            Plant::Corn,
            Plant::DragonFruit,
            Plant::Durian,
            Plant::Eggplant,
            Plant::Pomegranate,
            Plant::Pumpkin,
            Plant::Watermelon,
            Plant::Asparagus,
            Plant::TomaRoot,
            Plant::Potato,
            Plant::Onion,
            Plant::Pepper,
            Plant::Garlic,
        ]
    }

    /// The place of the crop in the catalog, counted from zero.
    pub fn index(&self) -> (i: usize)
        ensures
            i == self.position(),
            i < 14,
            Plant::catalog()[i as int] == *self,
    {
        match self {
            Plant::Carrot => 0,
            Plant::Corn => 1,
            Plant::DragonFruit => 2,
            Plant::Durian => 3,
            Plant::Eggplant => 4,
            Plant::Pomegranate => 5,
            Plant::Pumpkin => 6,
            Plant::Watermelon => 7,
            Plant::Asparagus => 8,
            Plant::TomaRoot => 9,
            Plant::Potato => 10,
            Plant::Onion => 11,
            Plant::Pepper => 12,
            Plant::Garlic => 13,
        }
    }

    /// The display name of the crop.
    pub fn name(&self) -> (s: &'static str)
        ensures
            s@ == self.name_text(),
    {
        match self {
            Plant::Carrot => "Carrot",
            Plant::Corn => "Corn",
            Plant::DragonFruit => "Dragon Fruit",
            Plant::Durian => "Durian",
            Plant::Eggplant => "Eggplant",
            Plant::Pomegranate => "Pomegranate",
            Plant::Pumpkin => "Pumpkin",
            Plant::Watermelon => "Watermelon",
            Plant::Asparagus => "Asparagus",
            Plant::TomaRoot => "Toma Root",
            Plant::Potato => "Potato",
            Plant::Onion => "Onion",
            Plant::Pepper => "Pepper",
            Plant::Garlic => "Garlic",
        }
    }

    /// The name under which the crop's seeds are known.
    pub fn seed_name(&self) -> (s: &'static str)
        ensures
            s@ == self.seed_text(),
    {
        match self {
            Plant::Carrot => "Oblong Seeds",
            Plant::Corn => "Clustered Seeds",
            Plant::DragonFruit => "Bulbous Seeds",
            Plant::Durian => "Brittle Seed Pods",
            Plant::Eggplant => "Swirly Seeds",
            Plant::Pomegranate => "Windblown Seeds",
            Plant::Pumpkin => "Sharp Seeds",
            Plant::Watermelon => "Square Seeds",
            Plant::Asparagus => "Tubular Seeds",
            Plant::TomaRoot => "Spiky Seeds",
            Plant::Potato => "Fluffy Seeds",
            Plant::Onion => "Pointy Seeds",
            Plant::Pepper => "Lumpy Seeds",
            Plant::Garlic => "Seed Pods",
        }
    }

    /// Whether the crop may be planted in `season`.
    pub fn in_season(&self, season: &Seasons) -> (b: bool)
        ensures
            b == self.grows_in(*season),
    {
        match self {
            Plant::Carrot => !matches!(season, Seasons::Summer),
            Plant::Corn => !matches!(season, Seasons::Winter),
            Plant::DragonFruit => matches!(season, Seasons::Spring | Seasons::Summer),
            Plant::Durian => matches!(season, Seasons::Spring),
            Plant::Eggplant => matches!(season, Seasons::Autumn | Seasons::Spring),
            Plant::Pomegranate => matches!(season, Seasons::Spring | Seasons::Summer),
            Plant::Pumpkin => matches!(season, Seasons::Autumn | Seasons::Winter),
            Plant::Watermelon => matches!(season, Seasons::Spring | Seasons::Summer),
            Plant::Asparagus => matches!(season, Seasons::Winter | Seasons::Spring),
            Plant::TomaRoot => !matches!(season, Seasons::Winter),
            Plant::Potato => !matches!(season, Seasons::Summer),
            Plant::Onion => !matches!(season, Seasons::Winter),
            Plant::Pepper => matches!(season, Seasons::Autumn | Seasons::Summer),
            Plant::Garlic => true,
        }
    }

    /// The crop that goes by the display name `name`, if there is one.
    pub fn from_name(name: &str) -> (r: Option<Plant>)
        ensures
            match r {
                Some(plant) => plant.name_text() == name@,
                None => forall|p: Plant| p.name_text() != name@,
            },
    {
        let plants: Vec<Plant> = Plant::all();
        let mut i: usize = 0;
        while i < plants.len()
            invariant
                plants@ == Plant::catalog(),
                i <= plants.len(),
                forall|k: int| 0 <= k < i ==> (#[trigger] plants@[k]).name_text() != name@,
            decreases plants.len() - i,
        {
            if same_text(plants[i].name(), name) {
                return Some(plants[i]);
            }
            i = i + 1;
        }
        assert forall|p: Plant| p.name_text() != name@ by {
            assert(plants@[p.position()] == p);
        }
        None
    }
}

/// No two crops share a display name, so a name stands for at most one crop.
pub proof fn lemma_plant_names_distinct(a: Plant, b: Plant)
    requires
        a.name_text() == b.name_text(),
    ensures
        a == b,
{
    lemma_plant_name_mark(a);
    lemma_plant_name_mark(b);
}

/// The length, first and third letter of each crop's name: together they
/// tell the names apart.
proof fn lemma_plant_name_mark(p: Plant)
    ensures
        (p.name_text().len(), p.name_text()[0], p.name_text()[2]) == match p {
            Plant::Carrot => (6nat, 'C', 'r'),
            Plant::Corn => (4nat, 'C', 'r'),
            Plant::DragonFruit => (12nat, 'D', 'a'),
            Plant::Durian => (6nat, 'D', 'r'),
            Plant::Eggplant => (8nat, 'E', 'g'),
            Plant::Pomegranate => (11nat, 'P', 'm'),
            Plant::Pumpkin => (7nat, 'P', 'm'),
            Plant::Watermelon => (10nat, 'W', 't'),
            Plant::Asparagus => (9nat, 'A', 'p'),
            Plant::TomaRoot => (9nat, 'T', 'm'),
            Plant::Potato => (6nat, 'P', 't'),
            Plant::Onion => (5nat, 'O', 'i'),
            Plant::Pepper => (6nat, 'P', 'p'),
            Plant::Garlic => (6nat, 'G', 'r'),
        },
{
    reveal_strlit("Carrot");
    reveal_strlit("Corn");
    reveal_strlit("Dragon Fruit");
    reveal_strlit("Durian");
    reveal_strlit("Eggplant");
    reveal_strlit("Pomegranate");
    reveal_strlit("Pumpkin");
    reveal_strlit("Watermelon");
    reveal_strlit("Asparagus");
    reveal_strlit("Toma Root");
    reveal_strlit("Potato");
    reveal_strlit("Onion");
    reveal_strlit("Pepper");
    reveal_strlit("Garlic");
}

} // verus!
