use rand::SeedableRng;
use rand_xoshiro::Xoshiro256PlusPlus;
use torus_life::config::Config;
use torus_life::grid::Grid;
use torus_life::probability::Probability;
use torus_life::simulation::Simulation;

fn config(max_iter: usize, numerator: u32) -> Config {
    Config {
        width: 6,
        height: 4,
        cell_size: 3,
        max_iter,
        fill: Probability { numerator, denominator: 20 },
        delay: 1,
    }
}

fn live_cells(grid: &Grid) -> usize {
    let mut n = 0;
    for y in 0..grid.height() {
        for x in 0..grid.width() {
            if grid.get(x, y) {
                n += 1;
            }
        }
    }
    n
}

#[test]
fn new_simulation_is_empty_and_due_for_a_fill() {
    let sim = Simulation::new(config(35, 3));
    assert_eq!((sim.grid().width(), sim.grid().height()), (6, 4));
    assert_eq!(live_cells(sim.grid()), 0);
    assert_eq!(sim.generations_since_fill(), 35);
}

#[test]
fn first_turn_fills_the_grid() {
    let mut rng = Xoshiro256PlusPlus::seed_from_u64(5);
    let mut sim = Simulation::new(config(35, 20));
    assert!(sim.fill_if_due(&mut rng));
    assert_eq!(live_cells(sim.grid()), 24);
    assert_eq!(sim.generations_since_fill(), 0);
}

#[test]
fn grid_is_filled_anew_after_max_iter_generations() {
    let mut rng = Xoshiro256PlusPlus::seed_from_u64(5);
    let mut sim = Simulation::new(config(3, 20));
    let mut fills = Vec::new();
    for _ in 0..8 {
        fills.push(sim.fill_if_due(&mut rng));
        sim.advance();
    }
    assert_eq!(fills, vec![true, false, false, true, false, false, true, false]);
}

#[test]
fn full_grid_dies_out_until_the_next_fill() {
    let mut rng = Xoshiro256PlusPlus::seed_from_u64(5);
    let mut sim = Simulation::new(config(2, 20));
    assert!(sim.fill_if_due(&mut rng));
    assert_eq!(live_cells(sim.grid()), 24);
    sim.advance();
    assert_eq!(live_cells(sim.grid()), 0);
    assert_eq!(sim.generations_since_fill(), 1);
    assert!(!sim.fill_if_due(&mut rng));
    assert_eq!(live_cells(sim.grid()), 0);
    sim.advance();
    assert!(sim.fill_if_due(&mut rng));
    assert_eq!(live_cells(sim.grid()), 24);
}

#[test]
fn without_generations_between_fills_only_the_first_turn_fills() {
    let mut rng = Xoshiro256PlusPlus::seed_from_u64(5);
    let mut sim = Simulation::new(config(0, 20));
    let mut fills = Vec::new();
    for _ in 0..5 {
        fills.push(sim.fill_if_due(&mut rng));
        sim.advance();
    }
    assert_eq!(fills, vec![true, false, false, false, false]);
    assert_eq!(sim.generations_since_fill(), 5);
}

#[test]
fn render_shows_the_current_generation() {
    let mut rng = Xoshiro256PlusPlus::seed_from_u64(5);
    let mut sim = Simulation::new(config(35, 20));
    let blank = sim.render();
    assert_eq!((blank.width(), blank.height()), (18, 12));
    assert!(blank.into_raw().iter().all(|&v| v == 0));
    sim.fill_if_due(&mut rng);
    assert!(sim.render().into_raw().iter().all(|&v| v == 64));
    sim.advance();
    assert!(sim.render().into_raw().iter().all(|&v| v == 0));
}

#[test]
fn advance_follows_the_rule() {
    let mut rng = Xoshiro256PlusPlus::seed_from_u64(11);
    let mut sim = Simulation::new(config(35, 7));
    sim.fill_if_due(&mut rng);
    let mut before = Grid::new(6, 4, false);
    for y in 0..4 {
        for x in 0..6 {
            before.set(x, y, sim.grid().get(x, y));
        }
    }
    sim.advance();
    for y in 0..4 {
        for x in 0..6 {
            assert_eq!(sim.grid().get(x, y), torus_life::life::next_state(&before, x, y));
        }
    }
}
