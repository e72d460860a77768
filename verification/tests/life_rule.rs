use torus_life::grid::Grid;
use torus_life::life::{next_generation, next_state};

fn grid_from(rows: &[&str]) -> Grid {
    let height = rows.len();
    let width = rows[0].len();
    let mut grid = Grid::new(width, height, false);
    for (y, row) in rows.iter().enumerate() {
        assert_eq!(row.len(), width);
        for (x, c) in row.chars().enumerate() {
            grid.set(x, y, c == '#');
        }
    }
    grid
}

fn picture_of(grid: &Grid) -> Vec<String> {
    let mut rows = Vec::new();
    for y in 0..grid.height() {
        let mut row = String::new();
        for x in 0..grid.width() {
            row.push(if grid.get(x, y) { '#' } else { '.' });
        }
        rows.push(row);
    }
    rows
}

fn step(grid: &Grid) -> Grid {
    let mut next = Grid::new(grid.width(), grid.height(), true);
    next_generation(grid, &mut next);
    next
}

fn count_live_after(rows: &[&str], x: usize, y: usize) -> bool {
    next_state(&grid_from(rows), x, y)
}

#[test]
fn single_live_cell_sees_itself_eight_times_and_dies() {
    let grid = Grid::new(1, 1, true);
    assert!(!next_state(&grid, 0, 0));
    assert_eq!(picture_of(&step(&grid)), vec!["."]);
}

#[test]
fn single_dead_cell_stays_dead() {
    let grid = Grid::new(1, 1, false);
    assert!(!next_state(&grid, 0, 0));
    assert_eq!(picture_of(&step(&grid)), vec!["."]);
}

#[test]
fn two_by_two_board_follows_the_table_of_all_sixteen_states() {
    // Each line: the board, then the board one generation on. On this torus
    // a cell meets the cell beside it twice, the cell above it twice and the
    // cell across the corner four times, so a count is never three: a cell
    // lives on only when it is alive with a count of two.
    let table: [([&str; 2], [&str; 2]); 16] = [
        (["..", ".."], ["..", ".."]),
        (["#.", ".."], ["..", ".."]),
        ([".#", ".."], ["..", ".."]),
        (["##", ".."], ["##", ".."]),
        (["..", "#."], ["..", ".."]),
        (["#.", "#."], ["#.", "#."]),
        ([".#", "#."], ["..", ".."]),
        (["##", "#."], ["..", ".."]),
        (["..", ".#"], ["..", ".."]),
        (["#.", ".#"], ["..", ".."]),
        ([".#", ".#"], [".#", ".#"]),
        (["##", ".#"], ["..", ".."]),
        (["..", "##"], ["..", "##"]),
        (["#.", "##"], ["..", ".."]),
        ([".#", "##"], ["..", ".."]),
        (["##", "##"], ["..", ".."]),
    ];
    for (before, after) in table.iter() {
        let grid = grid_from(before);
        assert_eq!(picture_of(&step(&grid)), after.to_vec(), "from {:?}", before);
        for y in 0..2 {
            for x in 0..2 {
                assert_eq!(next_state(&grid, x, y), after[y].as_bytes()[x] == b'#');
            }
        }
    }
}

#[test]
fn empty_board_stays_empty() {
    let mut grid = Grid::new(5, 3, false);
    for _ in 0..10 {
        grid = step(&grid);
        assert_eq!(picture_of(&grid), vec![".....", ".....", "....."]);
    }
}

#[test]
fn block_is_unchanged_after_one_generation() {
    let block = ["....", ".##.", ".##.", "...."];
    assert_eq!(picture_of(&step(&grid_from(&block))), block.to_vec());
    let wide = ["......", "......", "...##.", "...##.", "......"];
    assert_eq!(picture_of(&step(&grid_from(&wide))), wide.to_vec());
}

#[test]
fn block_across_the_edges_is_unchanged() {
    let block = ["#..#", "....", "....", "#..#"];
    assert_eq!(picture_of(&step(&grid_from(&block))), block.to_vec());
}

#[test]
fn each_corner_of_a_block_has_three_live_neighbours() {
    // With three neighbours a dead cell would be born, so clearing a corner
    // and finding it alive one generation on shows the count.
    let dented = ["....", "..#.", ".##.", "...."];
    assert!(count_live_after(&dented, 1, 1));
    let block = ["....", ".##.", ".##.", "...."];
    assert!(count_live_after(&block, 1, 1));
    assert!(count_live_after(&block, 2, 1));
    assert!(count_live_after(&block, 1, 2));
    assert!(count_live_after(&block, 2, 2));
}

#[test]
fn blinker_oscillates_with_period_two() {
    let across = [".....", ".....", ".###.", ".....", "....."];
    let upright = [".....", "..#..", "..#..", "..#..", "....."];
    let one = step(&grid_from(&across));
    assert_eq!(picture_of(&one), upright.to_vec());
    let two = step(&one);
    assert_eq!(picture_of(&two), across.to_vec());
}

#[test]
fn blinker_oscillates_on_the_smallest_board_that_holds_it() {
    let across = ["....", "###.", "....", "...."];
    let upright = [".#..", ".#..", ".#..", "...."];
    let one = step(&grid_from(&across));
    assert_eq!(picture_of(&one), upright.to_vec());
    assert_eq!(picture_of(&step(&one)), across.to_vec());
}

#[test]
fn blinker_oscillates_across_the_edge() {
    let across = ["##..#", ".....", ".....", ".....", "....."];
    let upright = ["#....", "#....", ".....", ".....", "#...."];
    let one = step(&grid_from(&across));
    assert_eq!(picture_of(&one), upright.to_vec());
    assert_eq!(picture_of(&step(&one)), across.to_vec());
}

#[test]
fn blinker_on_a_board_three_rows_tall_meets_itself() {
    // Three rows are a ring of three: the upright blinker fills its whole
    // column, each of its cells keeps two neighbours, and the columns beside
    // it are born.
    let across = [".....", ".###.", "....."];
    let one = step(&grid_from(&across));
    assert_eq!(picture_of(&one), vec!["..#..", "..#..", "..#.."]);
    assert_eq!(picture_of(&step(&one)), vec![".###.", ".###.", ".###."]);
}

#[test]
fn glider_moves_one_cell_down_and_right_in_four_generations() {
    let start = [".#....", "..#...", "###...", "......", "......", "......"];
    let mut grid = grid_from(&start);
    for _ in 0..4 {
        grid = step(&grid);
    }
    assert_eq!(
        picture_of(&grid),
        vec!["......", "..#...", "...#..", ".###..", "......", "......"]
    );
}

#[test]
fn live_cell_with_two_neighbours_survives_and_with_one_dies() {
    let line = [".....", ".###.", ".....", ".....", "....."];
    assert!(count_live_after(&line, 2, 1));
    assert!(!count_live_after(&line, 1, 1));
    assert!(!count_live_after(&line, 3, 1));
}

#[test]
fn live_cell_with_four_neighbours_dies() {
    let cross = [".....", "..#..", ".###.", "..#..", "....."];
    assert!(!count_live_after(&cross, 2, 2));
    assert!(count_live_after(&cross, 1, 1));
}

#[test]
fn dead_cell_with_two_neighbours_stays_dead() {
    let pair = [".....", ".#.#.", ".....", ".....", "....."];
    assert!(!count_live_after(&pair, 2, 1));
    assert!(!count_live_after(&pair, 2, 0));
}

#[test]
fn columns_wrap_by_the_width_and_rows_by_the_height() {
    // Seven columns and four rows. The three cells left of, at and right of
    // the top right corner's column, all in the bottom row, are the
    // neighbours above the top row only if rows wrap by four, and the cell in
    // column 0 is among them only if columns wrap by seven.
    let board = [".......", ".......", ".......", "#....##"];
    assert!(count_live_after(&board, 6, 0));
    assert!(!count_live_after(&board, 5, 0));
    assert!(!count_live_after(&board, 0, 0));
    // Four columns and seven rows, the other way round.
    let tall = ["...#", "....", "....", "....", "....", "....", "...#"];
    assert!(!count_live_after(&tall, 0, 0));
    let corner = ["#..#", "....", "....", "....", "....", "....", "...#"];
    assert!(count_live_after(&corner, 0, 6));
    let other = ["#..#", "....", "....", "....", "....", "....", "..#."];
    assert!(count_live_after(&other, 3, 6));
}

#[test]
fn next_generation_overwrites_every_cell_of_the_target() {
    let grid = grid_from(&["....", "....", "...."]);
    let mut next = Grid::new(4, 3, true);
    next_generation(&grid, &mut next);
    assert_eq!(picture_of(&next), vec!["....", "....", "...."]);
    assert_eq!(picture_of(&grid), vec!["....", "....", "...."]);
}

#[test]
fn next_generation_leaves_its_source_alone() {
    let across = [".....", ".....", ".###.", ".....", "....."];
    let grid = grid_from(&across);
    let mut next = Grid::new(5, 5, false);
    next_generation(&grid, &mut next);
    assert_eq!(picture_of(&grid), across.to_vec());
}
