use farm_planner::error::PlanError;
use farm_planner::layout::{CropRatios, FarmSize};

#[test]
fn farm_size_needs_both_dimensions() {
    assert_eq!(FarmSize::new(4, 2), Ok(FarmSize { width: 4, height: 2 }));
    assert_eq!(FarmSize::new(0, 2), Err(PlanError::InvalidInput));
    assert_eq!(FarmSize::new(4, 0), Err(PlanError::InvalidInput));
    assert_eq!(FarmSize::new(0, 0), Err(PlanError::InvalidInput));
}

#[test]
fn layout_labels_round_trip() {
    assert_eq!(CropRatios::OneOne.label(), "1:1");
    assert_eq!(CropRatios::TwoOne.label(), "2:1");
    assert_eq!(CropRatios::OneOneOne.label(), "1:1:1");
    assert_eq!(CropRatios::TwoOneOne.label(), "2:1:1");
    for ratio in CropRatios::all() {
        assert_eq!(CropRatios::from_label(ratio.label()), Ok(ratio));
    }
}

#[test]
fn unknown_layout_label_is_invalid_input() {
    assert_eq!(CropRatios::from_label("1:2"), Err(PlanError::InvalidInput));
    assert_eq!(CropRatios::from_label(""), Err(PlanError::InvalidInput));
}

#[test]
fn roles_and_seeds_per_role() {
    assert_eq!(CropRatios::OneOne.role_count(), 2);
    assert_eq!(CropRatios::OneOneOne.role_count(), 3);
    assert_eq!(CropRatios::TwoOne.role_count(), 3);
    assert_eq!(CropRatios::TwoOneOne.role_count(), 4);
    assert_eq!(CropRatios::OneOne.get_min_seeds_per_crop(), 4);
    assert_eq!(CropRatios::OneOneOne.get_min_seeds_per_crop(), 12);
    assert_eq!(CropRatios::TwoOne.get_min_seeds_per_crop(), 6);
    assert_eq!(CropRatios::TwoOneOne.get_min_seeds_per_crop(), 8);
}

#[test]
fn capacity_is_area_over_footprint() {
    let farm = FarmSize { width: 4, height: 2 };
    assert_eq!(CropRatios::OneOne.get_filled_size(&farm), 8);
    assert_eq!(CropRatios::TwoOne.get_filled_size(&farm), 4);
    assert_eq!(CropRatios::OneOneOne.get_filled_size(&farm), 2);
    assert_eq!(CropRatios::TwoOneOne.get_filled_size(&farm), 2);
}

#[test]
fn capacity_rounds_down() {
    let farm = FarmSize { width: 3, height: 3 };
    assert_eq!(CropRatios::OneOne.get_filled_size(&farm), 9);
    assert_eq!(CropRatios::TwoOne.get_filled_size(&farm), 4);
    assert_eq!(CropRatios::OneOneOne.get_filled_size(&farm), 2);
    let single = FarmSize { width: 1, height: 1 };
    assert_eq!(CropRatios::OneOne.get_filled_size(&single), 1);
    assert_eq!(CropRatios::TwoOne.get_filled_size(&single), 0);
    assert_eq!(CropRatios::TwoOneOne.get_filled_size(&single), 0);
}

#[test]
fn capacity_of_the_largest_farm_fits() {
    let farm = FarmSize { width: 65535, height: 65535 };
    assert_eq!(CropRatios::OneOne.get_filled_size(&farm), 4294836225);
    assert_eq!(CropRatios::TwoOne.get_filled_size(&farm), 2147418112);
    assert_eq!(CropRatios::OneOneOne.get_filled_size(&farm), 1073709056);
}

#[test]
fn row_width_is_farm_width_over_footprint_width() {
    let farm = FarmSize { width: 4, height: 2 };
    assert_eq!(CropRatios::OneOne.get_filled_size_horizontal(&farm), 4);
    assert_eq!(CropRatios::TwoOne.get_filled_size_horizontal(&farm), 2);
    assert_eq!(CropRatios::OneOneOne.get_filled_size_horizontal(&farm), 2);
    assert_eq!(CropRatios::TwoOneOne.get_filled_size_horizontal(&farm), 2);
    let odd = FarmSize { width: 5, height: 1 };
    assert_eq!(CropRatios::OneOne.get_filled_size_horizontal(&odd), 5);
    assert_eq!(CropRatios::TwoOne.get_filled_size_horizontal(&odd), 2);
    let single = FarmSize { width: 1, height: 4 };
    assert_eq!(CropRatios::TwoOne.get_filled_size_horizontal(&single), 0);
}
