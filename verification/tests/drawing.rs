use farm_planner::allocate::allocate;
use farm_planner::art::{draw, empty_plot_lines, pattern_rows, plot_lines, Palette};
use farm_planner::catalog::{Combo, ComboCatalog};
use farm_planner::compose::{compose, join};
use farm_planner::grid::GridZip;
use farm_planner::layout::{CropRatios, FarmSize};
use farm_planner::plant::{Plant, Seasons};
use farm_planner::seeds::SeedCounts;
use farm_planner::summary::used_plants;

fn letters() -> Palette {
    Palette::uniform("?")
        .with_mark(Plant::Carrot, "C")
        .with_mark(Plant::Potato, "P")
        .with_mark(Plant::Onion, "O")
        .with_mark(Plant::Garlic, "G")
}

fn texts(lines: &[&str]) -> Vec<String> {
    lines.iter().map(|l| l.to_string()).collect()
}

fn empty_small() -> Vec<String> {
    texts(&[
        "╔═══╤═══╤═══╗",
        "║   │   │   ║",
        "╟───┼───┼───╢",
        "║   │   │   ║",
        "╟───┼───┼───╢",
        "║   │   │   ║",
        "╚═══╧═══╧═══╝",
    ])
}

#[test]
fn palette_gives_each_crop_its_mark() {
    let palette = letters();
    assert_eq!(palette.mark(Plant::Carrot), "C");
    assert_eq!(palette.mark(Plant::Garlic), "G");
    assert_eq!(palette.mark(Plant::Corn), "?");
    let changed = letters().with_mark(Plant::Carrot, "c");
    assert_eq!(changed.mark(Plant::Carrot), "c");
    assert_eq!(changed.mark(Plant::Potato), "P");
}

#[test]
fn empty_plots() {
    assert_eq!(empty_plot_lines(&CropRatios::OneOne), empty_small());
    assert_eq!(
        empty_plot_lines(&CropRatios::TwoOne),
        texts(&[
            "╔═══╤═══╤═══╤═══╤═══╤═══╗",
            "║   │   │   ┃   │   │   ║",
            "╟───┼───┼───╂───┼───┼───╢",
            "║   │   │   ┃   │   │   ║",
            "╟───┼───┼───╂───┼───┼───╢",
            "║   │   │   ┃   │   │   ║",
            "╚═══╧═══╧═══╧═══╧═══╧═══╝",
        ])
    );
    let large = texts(&[
        "╔═══╤═══╤═══╤═══╤═══╤═══╗",
        "║   │   │   ┃   │   │   ║",
        "╟───┼───┼───╂───┼───┼───╢",
        "║   │   │   ┃   │   │   ║",
        "╟───┼───┼───╂───┼───┼───╢",
        "║   │   │   ┃   │   │   ║",
        "╟━━━┿━━━┿━━━╋━━━┿━━━┿━━━╢",
        "║   │   │   ┃   │   │   ║",
        "╟───┼───┼───╂───┼───┼───╢",
        "║   │   │   ┃   │   │   ║",
        "╟───┼───┼───╂───┼───┼───╢",
        "║   │   │   ┃   │   │   ║",
        "╚═══╧═══╧═══╧═══╧═══╧═══╝",
    ]);
    assert_eq!(empty_plot_lines(&CropRatios::OneOneOne), large);
    assert_eq!(empty_plot_lines(&CropRatios::TwoOneOne), large);
}

#[test]
fn one_one_plot() {
    let combo = Combo::new(vec![Plant::Carrot, Plant::Potato]);
    assert_eq!(
        plot_lines(&CropRatios::OneOne, &combo, &letters()),
        texts(&[
            "╔═══╤═══╤═══╗",
            "║ C │ C │ C ║",
            "╟───┼───┼───╢",
            "║ C │   │ P ║",
            "╟───┼───┼───╢",
            "║ P │ P │ P ║",
            "╚═══╧═══╧═══╝",
        ])
    );
}

#[test]
fn one_one_one_plot() {
    let combo = Combo::new(vec![Plant::Carrot, Plant::Potato, Plant::Garlic]);
    assert_eq!(
        plot_lines(&CropRatios::OneOneOne, &combo, &letters()),
        texts(&[
            "╔═══╤═══╤═══╤═══╤═══╤═══╗",
            "║ C │ P │ P ┃ P │ P │ C ║",
            "╟───┼───┼───╂───┼───┼───╢",
            "║ C │ P │ G ┃ G │ P │ C ║",
            "╟───┼───┼───╂───┼───┼───╢",
            "║ C │ G │ G ┃ G │ G │ C ║",
            "╟━━━┿━━━┿━━━╋━━━┿━━━┿━━━╢",
            "║ C │ G │ G ┃ G │ G │ C ║",
            "╟───┼───┼───╂───┼───┼───╢",
            "║ C │ P │ G ┃ G │ P │ C ║",
            "╟───┼───┼───╂───┼───┼───╢",
            "║ C │ P │ P ┃ P │ P │ C ║",
            "╚═══╧═══╧═══╧═══╧═══╧═══╝",
        ])
    );
}

#[test]
fn two_one_plot() {
    let combo = Combo::new(vec![Plant::Carrot, Plant::Potato, Plant::Onion]);
    assert_eq!(
        plot_lines(&CropRatios::TwoOne, &combo, &letters()),
        texts(&[
            "╔═══╤═══╤═══╤═══╤═══╤═══╗",
            "║ C │ C │ O ┃ O │ P │ P ║",
            "╟───┼───┼───╂───┼───┼───╢",
            "║ C │ C │ O ┃ O │ P │ P ║",
            "╟───┼───┼───╂───┼───┼───╢",
            "║ C │ C │ O ┃ O │ P │ P ║",
            "╚═══╧═══╧═══╧═══╧═══╧═══╝",
        ])
    );
}

#[test]
fn two_one_one_plot() {
    let combo = Combo::new(vec![Plant::Carrot, Plant::Potato, Plant::Onion, Plant::Garlic]);
    assert_eq!(
        plot_lines(&CropRatios::TwoOneOne, &combo, &letters()),
        texts(&[
            "╔═══╤═══╤═══╤═══╤═══╤═══╗",
            "║ C │ C │ O ┃ O │ P │ P ║",
            "╟───┼───┼───╂───┼───┼───╢",
            "║ C │   │ O ┃ O │   │ P ║",
            "╟───┼───┼───╂───┼───┼───╢",
            "║ C │ G │ G ┃ G │ G │ P ║",
            "╟━━━┿━━━┿━━━╋━━━┿━━━┿━━━╢",
            "║ C │ G │ G ┃ G │ G │ P ║",
            "╟───┼───┼───╂───┼───┼───╢",
            "║ C │   │ O ┃ O │   │ P ║",
            "╟───┼───┼───╂───┼───┼───╢",
            "║ C │ C │ O ┃ O │ P │ P ║",
            "╚═══╧═══╧═══╧═══╧═══╧═══╝",
        ])
    );
}

#[test]
fn marks_may_be_longer_than_one_character() {
    let palette = Palette::uniform("\u{1b}[32m█\u{1b}[0m");
    let combo = Combo::new(vec![Plant::Carrot, Plant::Potato]);
    let lines = plot_lines(&CropRatios::OneOne, &combo, &palette);
    assert_eq!(
        lines[3],
        "║ \u{1b}[32m█\u{1b}[0m │   │ \u{1b}[32m█\u{1b}[0m ║"
    );
}

#[test]
fn each_role_has_as_many_cells_as_it_takes_seeds() {
    for ratio in CropRatios::all() {
        let rows = pattern_rows(&ratio);
        for role in 0..ratio.role_count() {
            let cells: usize =
                rows.iter().map(|row| row.iter().filter(|c| **c == Some(role)).count()).sum();
            assert_eq!(cells as u32, ratio.get_min_seeds_per_crop());
        }
    }
}

#[test]
fn draw_marks_cells_by_place() {
    let cells = vec![
        vec![Some(1), None, Some(0)],
        vec![None, None, None],
        vec![Some(0), Some(0), Some(1)],
    ];
    let marks = texts(&["a", "bb"]);
    assert_eq!(
        draw(&cells, &marks),
        texts(&[
            "╔═══╤═══╤═══╗",
            "║ bb │   │ a ║",
            "╟───┼───┼───╢",
            "║   │   │   ║",
            "╟───┼───┼───╢",
            "║ a │ a │ bb ║",
            "╚═══╧═══╧═══╝",
        ])
    );
}

#[test]
fn join_puts_the_separator_between() {
    assert_eq!(join(&texts(&["a", "b", "c"]), " "), "a b c");
    assert_eq!(join(&texts(&["a"]), " "), "a");
    assert_eq!(join(&texts(&[]), " "), "");
    assert_eq!(join(&texts(&["", ""]), ", "), ", ");
}

#[test]
fn grid_zip_draws_row_by_row() {
    let blocks = vec![texts(&["a0", "a1"]), texts(&["b0", "b1"]), texts(&["c0", "c1"])];
    let mut zip = GridZip::new(blocks, 2);
    assert_eq!(zip.next(), Some(texts(&["a0", "b0"])));
    assert_eq!(zip.next(), Some(texts(&["a1", "b1"])));
    assert_eq!(zip.next(), Some(texts(&["c0"])));
    assert_eq!(zip.next(), Some(texts(&["c1"])));
    assert_eq!(zip.next(), None);
    assert_eq!(zip.next(), None);
}

#[test]
fn grid_zip_leaves_a_row_when_one_block_is_spent() {
    let blocks = vec![texts(&["a0", "a1", "a2"]), texts(&["b0"]), texts(&["c0", "c1"])];
    let mut zip = GridZip::new(blocks, 2);
    assert_eq!(zip.next(), Some(texts(&["a0", "b0"])));
    assert_eq!(zip.next(), Some(texts(&["c0"])));
    assert_eq!(zip.next(), Some(texts(&["c1"])));
    assert_eq!(zip.next(), None);
}

#[test]
fn grid_zip_without_blocks_or_rows_gives_nothing() {
    let mut none = GridZip::new(vec![], 3);
    assert_eq!(none.next(), None);
    let mut no_rows = GridZip::new(vec![texts(&["a0"])], 0);
    assert_eq!(no_rows.next(), None);
    let mut empty_block = GridZip::new(vec![texts(&[]), texts(&["b0"])], 1);
    assert_eq!(empty_block.next(), Some(texts(&["b0"])));
    assert_eq!(empty_block.next(), None);
}

#[test]
fn grid_zip_with_a_huge_row_size() {
    let blocks = vec![texts(&["a0"]), texts(&["b0"])];
    let mut zip = GridZip::new(blocks, usize::MAX);
    assert_eq!(zip.next(), Some(texts(&["a0", "b0"])));
    assert_eq!(zip.next(), None);
}

#[test]
fn an_unplanted_farm_is_drawn_as_empty_plots_in_rows() {
    let farm = FarmSize { width: 2, height: 2 };
    let lines = compose(&vec![], &CropRatios::OneOne, &farm, &letters());
    let one = empty_small();
    assert_eq!(lines.len(), 14);
    for (k, line) in lines.iter().enumerate() {
        assert_eq!(*line, format!("{} {}", one[k % 7], one[k % 7]));
    }
}

#[test]
fn an_unplanted_farm_has_one_block_for_each_slot() {
    for ratio in CropRatios::all() {
        for (width, height) in [(1u16, 1u16), (4, 2), (3, 3), (6, 4), (1, 6)] {
            let farm = FarmSize { width, height };
            let lines = compose(&vec![], &ratio, &farm, &letters());
            let one = empty_plot_lines(&ratio);
            let slots = ratio.get_filled_size(&farm) as usize;
            let across = ratio.get_filled_size_horizontal(&farm) as usize;
            let mut expected: Vec<String> = Vec::new();
            if across > 0 {
                let mut left = slots;
                while left > 0 {
                    let n = left.min(across);
                    for line in &one {
                        expected.push(vec![line.clone(); n].join(" "));
                    }
                    left -= n;
                }
            }
            assert_eq!(lines, expected);
        }
    }
}

#[test]
fn a_planted_slot_stands_before_the_empty_ones() {
    let mut catalog = ComboCatalog::new();
    catalog
        .add(Seasons::Spring, CropRatios::OneOne, Combo::new(vec![Plant::Carrot, Plant::Potato]))
        .unwrap();
    let farm = FarmSize { width: 4, height: 2 };
    let seeds = SeedCounts { carrot: 4, potato: 7, ..SeedCounts::new() };
    let plan = allocate(&Seasons::Spring, &farm, &CropRatios::OneOne, &seeds, &catalog).unwrap();
    assert_eq!(plan.combos.len(), 1);
    let lines = compose(&plan.combos, &CropRatios::OneOne, &farm, &letters());
    let e = empty_small();
    assert_eq!(lines.len(), 14);
    assert_eq!(lines[0], format!("{0} {0} {0} {0}", e[0]));
    assert_eq!(lines[1], format!("║ C │ C │ C ║ {0} {0} {0}", e[1]));
    assert_eq!(lines[3], format!("║ C │   │ P ║ {0} {0} {0}", e[3]));
    assert_eq!(lines[5], format!("║ P │ P │ P ║ {0} {0} {0}", e[5]));
    for k in 7..14 {
        assert_eq!(lines[k], format!("{0} {0} {0} {0}", e[k - 7]));
    }
}

#[test]
fn slots_lie_side_by_side_in_rows() {
    let a = Combo::new(vec![Plant::Carrot, Plant::Potato, Plant::Onion]);
    let b = Combo::new(vec![Plant::Garlic, Plant::Garlic, Plant::Onion]);
    let farm = FarmSize { width: 4, height: 2 };
    let lines = compose(&vec![a, b.clone(), b], &CropRatios::TwoOne, &farm, &letters());
    assert_eq!(lines.len(), 14);
    assert_eq!(lines[1], "║ C │ C │ O ┃ O │ P │ P ║ ║ G │ G │ O ┃ O │ G │ G ║");
    assert_eq!(lines[8], "║ G │ G │ O ┃ O │ G │ G ║ ║   │   │   ┃   │   │   ║");
}

#[test]
fn plantings_beyond_the_farm_are_not_drawn() {
    let a = Combo::new(vec![Plant::Carrot, Plant::Potato]);
    let farm = FarmSize { width: 1, height: 1 };
    let lines = compose(&vec![a.clone(), a], &CropRatios::OneOne, &farm, &letters());
    assert_eq!(lines.len(), 7);
    assert_eq!(lines[1], "║ C │ C │ C ║");
}

#[test]
fn a_farm_too_narrow_for_the_layout_is_not_drawn() {
    let farm = FarmSize { width: 1, height: 4 };
    assert_eq!(compose(&vec![], &CropRatios::TwoOne, &farm, &letters()), Vec::<String>::new());
}

#[test]
fn used_plants_in_order_of_first_use() {
    let combos = vec![
        Combo::new(vec![Plant::Onion, Plant::Carrot]),
        Combo::new(vec![Plant::Onion, Plant::Carrot]),
        Combo::new(vec![Plant::Garlic, Plant::Onion]),
        Combo::new(vec![Plant::Carrot, Plant::Potato]),
    ];
    assert_eq!(
        used_plants(&combos),
        vec![Plant::Onion, Plant::Carrot, Plant::Garlic, Plant::Potato]
    );
    assert_eq!(used_plants(&vec![]), vec![]);
    assert_eq!(
        used_plants(&vec![Combo::new(vec![Plant::Corn, Plant::Corn, Plant::Corn])]),
        vec![Plant::Corn]
    );
}
