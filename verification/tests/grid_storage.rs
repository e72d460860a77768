use rand::SeedableRng;
use rand_xoshiro::Xoshiro256PlusPlus;
use torus_life::grid::Grid;
use torus_life::probability::Probability;

fn live_cells(grid: &Grid) -> usize {
    let mut n = 0;
    for y in 0..grid.height() {
        for x in 0..grid.width() {
            if grid.get(x, y) {
                n += 1;
            }
        }
    }
    n
}

#[test]
fn new_grid_has_the_size_asked_for() {
    let grid = Grid::new(7, 3, false);
    assert_eq!(grid.width(), 7);
    assert_eq!(grid.height(), 3);
}

#[test]
fn new_grid_holds_the_value_in_every_cell() {
    let dead = Grid::new(4, 6, false);
    assert_eq!(live_cells(&dead), 0);
    let alive = Grid::new(4, 6, true);
    assert_eq!(live_cells(&alive), 24);
}

#[test]
fn grid_without_columns_keeps_its_rows() {
    let grid = Grid::new(0, 5, false);
    assert_eq!(grid.width(), 0);
    assert_eq!(grid.height(), 5);
    let other = Grid::new(5, 0, false);
    assert_eq!(other.width(), 5);
    assert_eq!(other.height(), 0);
}

#[test]
fn set_changes_one_cell_only() {
    let mut grid = Grid::new(5, 3, false);
    grid.set(4, 2, true);
    for y in 0..3 {
        for x in 0..5 {
            assert_eq!(grid.get(x, y), x == 4 && y == 2);
        }
    }
    grid.set(4, 2, false);
    assert_eq!(live_cells(&grid), 0);
}

#[test]
fn first_coordinate_is_the_column() {
    let mut grid = Grid::new(5, 2, false);
    grid.set(3, 1, true);
    assert!(grid.get(3, 1));
    grid.set(4, 0, true);
    assert!(grid.get(4, 0));
    assert_eq!(live_cells(&grid), 2);
}

#[test]
fn fill_with_no_chance_leaves_no_live_cell() {
    let mut rng = Xoshiro256PlusPlus::seed_from_u64(1);
    let mut grid = Grid::new(9, 4, true);
    grid.randomize(&mut rng, Probability { numerator: 0, denominator: 20 });
    assert_eq!(live_cells(&grid), 0);
    assert_eq!((grid.width(), grid.height()), (9, 4));
}

#[test]
fn fill_with_certainty_leaves_no_dead_cell() {
    let mut rng = Xoshiro256PlusPlus::seed_from_u64(1);
    let mut grid = Grid::new(9, 4, false);
    grid.randomize(&mut rng, Probability { numerator: 20, denominator: 20 });
    assert_eq!(live_cells(&grid), 36);
    assert_eq!((grid.width(), grid.height()), (9, 4));
}

#[test]
fn fill_does_not_depend_on_the_seed_at_the_two_ends() {
    for seed in 0..8 {
        let mut rng = Xoshiro256PlusPlus::seed_from_u64(seed);
        let mut grid = Grid::new(6, 6, true);
        grid.randomize(&mut rng, Probability { numerator: 0, denominator: 1 });
        assert_eq!(live_cells(&grid), 0);
        grid.randomize(&mut rng, Probability { numerator: 1, denominator: 1 });
        assert_eq!(live_cells(&grid), 36);
    }
}

#[test]
fn fill_with_an_even_chance_draws_both_states() {
    let mut rng = Xoshiro256PlusPlus::seed_from_u64(42);
    let mut grid = Grid::new(40, 40, false);
    grid.randomize(&mut rng, Probability { numerator: 1, denominator: 2 });
    let live = live_cells(&grid);
    assert!(live > 600 && live < 1000, "{} of 1600 cells are alive", live);
}

#[test]
fn fill_draws_each_cell_anew() {
    let mut rng = Xoshiro256PlusPlus::seed_from_u64(42);
    let mut first = Grid::new(40, 40, false);
    first.randomize(&mut rng, Probability { numerator: 3, denominator: 20 });
    let mut second = Grid::new(40, 40, false);
    second.randomize(&mut rng, Probability { numerator: 3, denominator: 20 });
    let mut differ = 0;
    for y in 0..40 {
        for x in 0..40 {
            if first.get(x, y) != second.get(x, y) {
                differ += 1;
            }
        }
    }
    assert!(differ > 0);
    let live = live_cells(&first);
    assert!(live > 120 && live < 360, "{} of 1600 cells are alive", live);
}

#[test]
fn probability_is_valid_between_never_and_always() {
    assert!(Probability { numerator: 0, denominator: 1 }.is_valid());
    assert!(Probability { numerator: 3, denominator: 20 }.is_valid());
    assert!(Probability { numerator: 20, denominator: 20 }.is_valid());
    assert!(!Probability { numerator: 21, denominator: 20 }.is_valid());
    assert!(!Probability { numerator: 0, denominator: 0 }.is_valid());
}
