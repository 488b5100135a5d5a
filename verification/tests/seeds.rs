use farm_planner::error::PlanError;
use farm_planner::plant::{Plant, Seasons};
use farm_planner::seeds::{get_seed_counts, seed_prompts, SeedCounts};

#[test]
fn new_inventory_is_empty() {
    let seeds = SeedCounts::new();
    for plant in Plant::all() {
        assert_eq!(seeds.get(plant), 0);
    }
}

#[test]
fn set_changes_one_count() {
    let mut seeds = SeedCounts::new();
    seeds.set(Plant::TomaRoot, 9);
    assert_eq!(seeds.get(Plant::TomaRoot), 9);
    assert_eq!(seeds.toma_root, 9);
    assert_eq!(seeds, SeedCounts { toma_root: 9, ..SeedCounts::new() });
}

#[test]
fn get_mut_writes_through() {
    let mut seeds = SeedCounts { onion: 3, ..SeedCounts::new() };
    {
        let slot = seeds.get_mut(Plant::Onion);
        assert_eq!(*slot, 3);
        *slot = 11;
    }
    assert_eq!(seeds, SeedCounts { onion: 11, ..SeedCounts::new() });
}

#[test]
fn get_val_from_name_reads_the_named_crop() {
    let seeds = SeedCounts { carrot: 5, dragon_fruit: 7, garlic: 1, ..SeedCounts::new() };
    assert_eq!(seeds.get_val_from_name("Carrot"), Ok(5));
    assert_eq!(seeds.get_val_from_name("Dragon Fruit"), Ok(7));
    assert_eq!(seeds.get_val_from_name("Garlic"), Ok(1));
    assert_eq!(seeds.get_val_from_name("Corn"), Ok(0));
}

#[test]
fn get_val_from_name_rejects_unknown_names() {
    let seeds = SeedCounts { carrot: 5, ..SeedCounts::new() };
    assert_eq!(seeds.get_val_from_name("Turnip"), Err(PlanError::InvalidInput));
    assert_eq!(seeds.get_val_from_name("dragon_fruit"), Err(PlanError::InvalidInput));
}

#[test]
fn get_mut_from_name_writes_the_named_crop() {
    let mut seeds = SeedCounts { pepper: 8, ..SeedCounts::new() };
    {
        let slot = seeds.get_mut_from_name("Pepper").unwrap();
        assert_eq!(*slot, 8);
        *slot = *slot - 4;
    }
    assert_eq!(seeds, SeedCounts { pepper: 4, ..SeedCounts::new() });
}

#[test]
fn get_mut_from_name_rejects_unknown_names() {
    let mut seeds = SeedCounts { pepper: 8, ..SeedCounts::new() };
    assert!(matches!(seeds.get_mut_from_name("Peppers"), Err(PlanError::InvalidInput)));
    assert_eq!(seeds, SeedCounts { pepper: 8, ..SeedCounts::new() });
}

#[test]
fn every_name_reaches_its_own_count() {
    let mut seeds = SeedCounts::new();
    for (i, plant) in Plant::all().into_iter().enumerate() {
        *seeds.get_mut_from_name(plant.name()).unwrap() = i as u32 + 1;
    }
    for (i, plant) in Plant::all().into_iter().enumerate() {
        assert_eq!(seeds.get(plant), i as u32 + 1);
        assert_eq!(seeds.get_val_from_name(plant.name()), Ok(i as u32 + 1));
    }
}

#[test]
fn seeds_are_asked_for_crops_in_season_only() {
    assert_eq!(
        seed_prompts(&Seasons::Winter),
        vec![Plant::Carrot, Plant::Pumpkin, Plant::Asparagus, Plant::Potato, Plant::Garlic]
    );
    assert_eq!(seed_prompts(&Seasons::Spring).len(), 12);
    assert_eq!(
        seed_prompts(&Seasons::Summer),
        vec![
            Plant::Corn,
            Plant::DragonFruit,
            Plant::Pomegranate,
            Plant::Watermelon,
            Plant::TomaRoot,
            Plant::Onion,
            Plant::Pepper,
            Plant::Garlic
        ]
    );
}

#[test]
fn answers_fill_the_inventory_in_asking_order() {
    let counts = get_seed_counts(&Seasons::Winter, &vec![1, 2, 3, 4, 5]).unwrap();
    assert_eq!(
        counts,
        SeedCounts { carrot: 1, pumpkin: 2, asparagus: 3, potato: 4, garlic: 5, ..SeedCounts::new() }
    );
}

#[test]
fn crops_out_of_season_count_as_none() {
    let counts = get_seed_counts(&Seasons::Summer, &vec![9, 9, 9, 9, 9, 9, 9, 9]).unwrap();
    assert_eq!(counts.carrot, 0);
    assert_eq!(counts.potato, 0);
    assert_eq!(counts.durian, 0);
    assert_eq!(counts.corn, 9);
    assert_eq!(counts.garlic, 9);
}

#[test]
fn wrong_number_of_answers_is_invalid_input() {
    assert_eq!(get_seed_counts(&Seasons::Winter, &vec![1, 2, 3, 4]), Err(PlanError::InvalidInput));
    assert_eq!(
        get_seed_counts(&Seasons::Winter, &vec![1, 2, 3, 4, 5, 6]),
        Err(PlanError::InvalidInput)
    );
    assert_eq!(get_seed_counts(&Seasons::Winter, &vec![]), Err(PlanError::InvalidInput));
}
