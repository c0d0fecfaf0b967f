use games::reblox::block::{pr2piece, BlockType};
use games::reblox::grid::{p2xy, xy2p, Grid};
use games::reblox::pseudo_random::PseudoRandom;
use std::time::Duration;

fn count(grid: &Grid, kind: BlockType) -> usize {
    grid.grid.iter().filter(|&&c| c == kind).count()
}

fn cells_of(grid: &Grid, kind: BlockType) -> Vec<usize> {
    (0..210).filter(|&i| grid.grid[i] == kind).collect()
}

#[test]
fn cell_and_coordinates() {
    assert_eq!(p2xy(0), (0, 0));
    assert_eq!(p2xy(9), (9, 0));
    assert_eq!(p2xy(195), (5, 19));
    assert_eq!(xy2p(5, 19), 195);
    assert_eq!(xy2p(9, 20), 209);
    for pos in 0..210u8 {
        let (x, y) = p2xy(pos);
        assert_eq!(xy2p(x, y), pos);
    }
}

#[test]
fn pieces_by_rotation() {
    assert_eq!(pr2piece(195, 0, BlockType::I, 10), [185, 195, 205, 175]);
    assert_eq!(pr2piece(195, 1, BlockType::I, 10), [196, 195, 194, 193]);
    assert_eq!(pr2piece(195, 0, BlockType::J, 10), [185, 195, 205, 184]);
    assert_eq!(pr2piece(195, 2, BlockType::J, 10), [185, 195, 205, 206]);
    assert_eq!(pr2piece(195, 0, BlockType::L, 10), [185, 195, 205, 186]);
    assert_eq!(pr2piece(195, 3, BlockType::L, 10), [194, 195, 196, 206]);
    assert_eq!(pr2piece(195, 0, BlockType::O, 10), [195, 196, 185, 186]);
    assert_eq!(pr2piece(195, 2, BlockType::O, 10), [195, 194, 205, 204]);
    assert_eq!(pr2piece(195, 1, BlockType::S, 10), [185, 195, 194, 204]);
    assert_eq!(pr2piece(195, 3, BlockType::T, 10), [196, 205, 195, 185]);
    assert_eq!(pr2piece(195, 2, BlockType::Z, 10), [196, 195, 205, 204]);
    assert_eq!(pr2piece(10, 1, BlockType::L, 4), [11, 10, 9, 5]);
}

#[test]
fn what_is_no_piece_has_no_cells() {
    assert_eq!(pr2piece(77, 0, BlockType::NONE, 10), [0, 0, 0, 0]);
    assert_eq!(pr2piece(77, 3, BlockType::GARBAGE, 10), [0, 0, 0, 0]);
}

#[test]
fn empty_cells_show_a_dot() {
    assert_eq!(BlockType::NONE.to_str(), " .");
    assert_eq!(BlockType::I.to_str(), "  ");
    assert_eq!(BlockType::GARBAGE.to_str(), "  ");
}

#[test]
fn generator_sequence() {
    let mut rng = PseudoRandom::new();
    assert_eq!(rng.seed, 0);
    assert_eq!(rng.next(), 79);
    assert_eq!(rng.next(), 4266);
    assert_eq!(rng.next(), (4266 * 53 + 79) % 7499);
    assert_eq!(rng.seed, (4266 * 53 + 79) % 7499);
}

#[test]
fn new_grid_is_empty() {
    let grid = Grid::new();
    assert_eq!(count(&grid, BlockType::NONE), 210);
    assert_eq!(grid.grid_size, 200);
    assert_eq!(grid.get_level(), 0);
    assert_eq!(grid.get_lines_cleared(), 0);
    assert_eq!(grid.get_next_type(), BlockType::L);
    assert_eq!(grid.get_next_rot(), 0);
    assert!(!grid.dead);
}

#[test]
fn first_piece_comes_when_the_time_is_up() {
    let mut grid = Grid::new();
    grid.update(Duration::from_nanos(1_999_999_999));
    assert_eq!(count(&grid, BlockType::NONE), 210);
    grid.update(Duration::from_nanos(1));
    assert_eq!(cells_of(&grid, BlockType::L), vec![185, 186, 195, 205]);
    assert_eq!(grid.get_next_type(), BlockType::L);
    assert_eq!(grid.get_next_rot(), 2);
    assert_eq!(grid.rng.seed, 4266);
}

#[test]
fn piece_falls_one_row_per_step() {
    let mut grid = Grid::new();
    grid.update(Duration::from_secs(2));
    grid.update(Duration::from_secs(2));
    assert_eq!(cells_of(&grid, BlockType::L), vec![175, 176, 185, 195]);
    grid.simulate_falling();
    assert_eq!(cells_of(&grid, BlockType::L), vec![165, 166, 175, 185]);
}

#[test]
fn piece_moves_sideways_until_the_wall() {
    let mut grid = Grid::new();
    grid.update(Duration::from_secs(2));
    grid.move_left();
    assert_eq!(cells_of(&grid, BlockType::L), vec![184, 185, 194, 204]);
    for _ in 0..10 {
        grid.move_left();
    }
    assert_eq!(cells_of(&grid, BlockType::L), vec![180, 181, 190, 200]);
    for _ in 0..20 {
        grid.move_right();
    }
    assert_eq!(cells_of(&grid, BlockType::L), vec![188, 189, 198, 208]);
}

#[test]
fn piece_turns_both_ways() {
    let mut grid = Grid::new();
    grid.update(Duration::from_secs(2));
    grid.simulate_falling();
    grid.rotate_clockwise();
    assert_eq!(cells_of(&grid, BlockType::L), vec![174, 184, 185, 186]);
    grid.rotate_counter_clockwise();
    assert_eq!(cells_of(&grid, BlockType::L), vec![175, 176, 185, 195]);
    grid.rotate_counter_clockwise();
    assert_eq!(cells_of(&grid, BlockType::L), vec![184, 185, 186, 196]);
}

#[test]
fn wall_keeps_piece_from_turning() {
    let mut grid = Grid::new();
    grid.update(Duration::from_secs(2));
    grid.simulate_falling();
    for _ in 0..10 {
        grid.move_left();
    }
    assert_eq!(cells_of(&grid, BlockType::L), vec![170, 171, 180, 190]);
    grid.rotate_clockwise();
    assert_eq!(cells_of(&grid, BlockType::L), vec![170, 171, 180, 190]);
}

#[test]
fn dropped_piece_rests_on_the_floor() {
    let mut grid = Grid::new();
    grid.update(Duration::from_secs(2));
    grid.drop();
    assert_eq!(grid.grid[5], BlockType::L);
    assert_eq!(grid.grid[6], BlockType::L);
    assert_eq!(grid.grid[15], BlockType::L);
    assert_eq!(grid.grid[25], BlockType::L);
    // the next piece, an L in rotation 2, has entered
    assert_eq!(cells_of(&grid, BlockType::L), vec![5, 6, 15, 25, 185, 195, 204, 205]);
    assert_eq!(grid.get_next_type(), kind_after(4266));
}

fn kind_after(seed: u64) -> BlockType {
    match (seed * 53 + 79) % 7499 % 7 {
        0 => BlockType::I,
        1 => BlockType::J,
        2 => BlockType::L,
        3 => BlockType::O,
        4 => BlockType::S,
        5 => BlockType::T,
        _ => BlockType::Z,
    }
}

#[test]
fn dropped_piece_rests_on_blocks() {
    let mut grid = Grid::new();
    grid.update(Duration::from_secs(2));
    grid.grid[45] = BlockType::GARBAGE;
    grid.drop();
    assert_eq!(grid.grid[55], BlockType::L);
    assert_eq!(grid.grid[56], BlockType::L);
    assert_eq!(grid.grid[65], BlockType::L);
    assert_eq!(grid.grid[75], BlockType::L);
}

#[test]
fn full_rows_are_cleared_when_the_next_piece_comes() {
    let mut grid = Grid::new();
    for x in 0..10 {
        grid.grid[x] = BlockType::GARBAGE;
        grid.grid[20 + x] = BlockType::GARBAGE;
    }
    grid.grid[10] = BlockType::GARBAGE;
    grid.grid[33] = BlockType::GARBAGE;
    grid.update(Duration::from_secs(2));
    assert_eq!(grid.get_lines_cleared(), 2);
    assert_eq!(grid.get_level(), 0);
    assert_eq!(cells_of(&grid, BlockType::GARBAGE), vec![0, 13]);
}

#[test]
fn ten_lines_make_a_level() {
    let mut grid = Grid::new();
    for y in 0..10 {
        for x in 0..10 {
            grid.grid[10 * y + x] = BlockType::GARBAGE;
        }
    }
    grid.update(Duration::from_secs(2));
    assert_eq!(grid.get_lines_cleared(), 10);
    assert_eq!(grid.get_level(), 1);
    assert_eq!(count(&grid, BlockType::GARBAGE), 0);
    // one level up, a step takes 7647058 ns less
    grid.update(Duration::from_nanos(2_000_000_000 - 7_647_058 - 1));
    assert_eq!(cells_of(&grid, BlockType::L), vec![185, 186, 195, 205]);
    grid.update(Duration::from_nanos(1));
    assert_eq!(cells_of(&grid, BlockType::L), vec![175, 176, 185, 195]);
}

#[test]
fn game_is_over_when_the_entry_is_taken() {
    let mut grid = Grid::new();
    grid.grid[195] = BlockType::GARBAGE;
    grid.update(Duration::from_secs(2));
    assert!(grid.dead);
    // the first block had entered before the second found its cell taken
    assert_eq!(grid.grid[185], BlockType::L);
    assert_eq!(grid.grid[205], BlockType::NONE);
    let before = grid.grid;
    grid.update(Duration::from_secs(2));
    grid.move_left();
    grid.drop();
    assert!(before == grid.grid);
}

#[test]
fn reset_starts_anew() {
    let mut grid = Grid::new();
    grid.update(Duration::from_secs(2));
    grid.drop();
    grid.reset();
    assert_eq!(count(&grid, BlockType::NONE), 210);
    assert_eq!(grid.get_level(), 0);
    assert_eq!(grid.get_lines_cleared(), 0);
    assert!(!grid.dead);
    grid.reset_elapsed_time();
    grid.update(Duration::from_nanos(1_999_999_999));
    assert_eq!(count(&grid, BlockType::NONE), 210);
}
