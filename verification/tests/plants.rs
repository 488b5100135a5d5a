use farm_planner::error::PlanError;
use farm_planner::plant::{same_text, Plant, Seasons};

#[test]
fn catalog_lists_fourteen_crops_in_asking_order() {
    let all = Plant::all();
    assert_eq!(all.len(), 14);
    assert_eq!(all[0], Plant::Carrot);
    assert_eq!(all[2], Plant::DragonFruit);
    assert_eq!(all[9], Plant::TomaRoot);
    assert_eq!(all[13], Plant::Garlic);
    for (i, plant) in all.iter().enumerate() {
        assert_eq!(plant.index(), i);
    }
}

#[test]
fn names_and_seed_names() {
    assert_eq!(Plant::Carrot.name(), "Carrot");
    assert_eq!(Plant::Carrot.seed_name(), "Oblong Seeds");
    assert_eq!(Plant::DragonFruit.name(), "Dragon Fruit");
    assert_eq!(Plant::DragonFruit.seed_name(), "Bulbous Seeds");
    assert_eq!(Plant::Durian.seed_name(), "Brittle Seed Pods");
    assert_eq!(Plant::TomaRoot.name(), "Toma Root");
    assert_eq!(Plant::TomaRoot.seed_name(), "Spiky Seeds");
    assert_eq!(Plant::Garlic.seed_name(), "Seed Pods");
}

#[test]
fn every_name_leads_back_to_its_crop() {
    for plant in Plant::all() {
        assert_eq!(Plant::from_name(plant.name()), Some(plant));
    }
}

#[test]
fn unknown_names_lead_to_no_crop() {
    assert_eq!(Plant::from_name("Turnip"), None);
    assert_eq!(Plant::from_name("carrot"), None);
    assert_eq!(Plant::from_name(""), None);
    assert_eq!(Plant::from_name("Carrot "), None);
}

#[test]
fn planting_calendar() {
    assert!(Plant::Carrot.in_season(&Seasons::Winter));
    assert!(!Plant::Carrot.in_season(&Seasons::Summer));
    assert!(Plant::Durian.in_season(&Seasons::Spring));
    assert!(!Plant::Durian.in_season(&Seasons::Autumn));
    assert!(Plant::Pepper.in_season(&Seasons::Summer));
    assert!(!Plant::Pepper.in_season(&Seasons::Spring));
    for season in Seasons::all() {
        assert!(Plant::Garlic.in_season(&season));
    }
}

#[test]
fn winter_has_five_crops() {
    let in_winter: Vec<Plant> =
        Plant::all().into_iter().filter(|p| p.in_season(&Seasons::Winter)).collect();
    assert_eq!(
        in_winter,
        vec![Plant::Carrot, Plant::Pumpkin, Plant::Asparagus, Plant::Potato, Plant::Garlic]
    );
}

#[test]
fn season_labels_round_trip() {
    assert_eq!(Seasons::all(), vec![Seasons::Autumn, Seasons::Winter, Seasons::Spring, Seasons::Summer]);
    for season in Seasons::all() {
        assert_eq!(Seasons::from_label(season.label()), Ok(season));
    }
    assert_eq!(Seasons::Autumn.label(), "Autumn");
}

#[test]
fn unknown_season_label_is_invalid_input() {
    assert_eq!(Seasons::from_label("Fall"), Err(PlanError::InvalidInput));
    assert_eq!(Seasons::from_label("winter"), Err(PlanError::InvalidInput));
}

#[test]
fn same_text_compares_characters() {
    assert!(same_text("Onion", "Onion"));
    assert!(!same_text("Onion", "Onions"));
    assert!(same_text("", ""));
}

#[test]
fn error_messages() {
    assert_eq!(PlanError::InvalidInput.message(), "Invalid input");
    assert_eq!(PlanError::NoCombosAvailable.message(), "No crops for current season and layout");
}
