//! The playing field as the game keeps it, and the steps of the game.

use crate::reblox::block::{pr2piece, BlockType};
use crate::reblox::clock::nanos_of;
use crate::reblox::field::{
    cell_of, clockwise_rule, collapsed, counter_clockwise_rule, full_rows, greatest, kind_of,
    least, lemma_cells_follow, lemma_entry_in_field, lemma_go_down, lemma_go_left,
    lemma_go_right, lemma_piece_in_field, lemma_piece_put_wf, lemma_put_back, lemma_turn, put4,
    in_field, lemma_has_origin,
    rate_at, row_full, turn_blocked, without_row, Field, BLOCK_SPEED_STEP, GRID_CELLS,
    GRID_HEIGHT, GRID_WIDTH, LINES_TO_CLEAR_TO_LVL_UP, MAX_ELAPSED, MAX_LINES,
    START_BLOCK_SPEED_NANOSEC,
};
use crate::reblox::pseudo_random::{successor, PseudoRandom};
use std::time::Duration;
use vstd::prelude::*;

verus! {

/// The column and the row of cell `pos`.
pub fn p2xy(pos: u8) -> (xy: (u8, u8))
    ensures
        xy.0 == pos % GRID_WIDTH,
        xy.1 == pos / GRID_WIDTH,
{
    (pos % GRID_WIDTH, pos / GRID_WIDTH)
}

/// The cell in column `x` and row `y`.
pub fn xy2p(x: u8, y: u8) -> (pos: u8)
    requires
        x + y * GRID_WIDTH <= u8::MAX,
    ensures
        pos == x + y * GRID_WIDTH,
{
    x + y * GRID_WIDTH
}

/// The playing field. Cell (0, 0) is bottom left.
///
/// The cells, the generator and the end of the game are open to all. The
/// steps of the game keep the field well formed; whoever writes to it from
/// outside has to keep it so.
pub struct Grid {
    /// What each cell holds, row by row from the bottom.
    pub grid: [BlockType; 210],
    /// The number of cells in which blocks come to rest.
    pub grid_size: u8,
    falling_type: BlockType,
    falling_pos: u8,
    falling_rot: u8,
    next_falling_type: BlockType,
    next_falling_rot: u8,
    /// The generator from which the pieces are drawn.
    pub rng: PseudoRandom,
    level: u8,
    lines_cleared: u32,
    /// Nanoseconds since the falling piece last made a step.
    elapsed_time: u128,
    /// Nanoseconds between two steps of the falling piece.
    cached_fall_rate: u32,
    /// Whether the game is over.
    pub dead: bool,
}

impl View for Grid {
    type V = Field;

    closed spec fn view(&self) -> Field {
        Field {
            cells: self.grid@,
            grid_size: self.grid_size as int,
            falling_type: self.falling_type,
            falling_pos: self.falling_pos as int,
            falling_rot: self.falling_rot as int,
            next_type: self.next_falling_type,
            next_rot: self.next_falling_rot as int,
            seed: self.rng.seed,
            level: self.level as int,
            lines_cleared: self.lines_cleared as int,
            elapsed: self.elapsed_time as int,
            fall_rate: self.cached_fall_rate as int,
            dead: self.dead,
        }
    }
}

impl Grid {
    /// Whether the field is one of a game: see `Field::wf`.
    pub open spec fn wf(&self) -> bool {
        self@.wf()
    }

    /// An empty field before the first piece: level 0, no lines cleared, and
    /// an L in rotation 0 to enter first.
    pub fn new() -> (g: Grid)
        ensures
            g.wf(),
            g@ == (Field {
                cells: Seq::new(GRID_CELLS as nat, |i: int| BlockType::NONE),
                grid_size: GRID_WIDTH * GRID_HEIGHT,
                falling_type: BlockType::NONE,
                falling_pos: 0,
                falling_rot: 0,
                next_type: BlockType::L,
                next_rot: 0,
                seed: 0,
                level: 0,
                lines_cleared: 0,
                elapsed: 0,
                fall_rate: START_BLOCK_SPEED_NANOSEC as int,
                dead: false,
            }),
    {
        let g = Grid {
            grid: [BlockType::NONE;210],
            grid_size: GRID_WIDTH * GRID_HEIGHT,
            falling_type: BlockType::NONE,
            falling_pos: 0,
            falling_rot: 0,
            next_falling_type: BlockType::L,
            next_falling_rot: 0,
            rng: PseudoRandom::new(),
            level: 0,
            lines_cleared: 0,
            elapsed_time: 0,
            cached_fall_rate: START_BLOCK_SPEED_NANOSEC,
            dead: false,
        };
        assert(g.grid@ =~= Seq::new(GRID_CELLS as nat, |i: int| BlockType::NONE));
        g
    }

    /// Starts the time until the next step of the falling piece anew.
    pub fn reset_elapsed_time(&mut self)
        ensures
            final(self)@ == (Field { elapsed: 0, ..old(self)@ }),
    {
        self.elapsed_time = 0;
    }

    /// The level reached.
    pub fn get_level(&self) -> (level: u8)
        ensures
            level == self@.level,
    {
        self.level
    }

    /// The number of lines cleared.
    pub fn get_lines_cleared(&self) -> (lines: u32)
        ensures
            lines == self@.lines_cleared,
    {
        self.lines_cleared
    }

    /// The kind of the piece that enters next.
    pub fn get_next_type(&self) -> (kind: BlockType)
        ensures
            kind == self@.next_type,
    {
        self.next_falling_type
    }

    /// The rotation in which the next piece enters.
    pub fn get_next_rot(&self) -> (rot: u8)
        ensures
            rot == self@.next_rot,
    {
        self.next_falling_rot
    }

    /// Puts `t` into the four cells of `piece`.
    fn put(&mut self, piece: &[u8; 4], t: BlockType)
        requires
            piece[0] < GRID_CELLS,
            piece[1] < GRID_CELLS,
            piece[2] < GRID_CELLS,
            piece[3] < GRID_CELLS,
        ensures
            final(self)@ == (Field {
                cells: put4(
                    old(self)@.cells,
                    piece[0] as int,
                    piece[1] as int,
                    piece[2] as int,
                    piece[3] as int,
                    t,
                ),
                ..old(self)@
            }),
    {
        self.grid[piece[0] as usize] = t;
        self.grid[piece[1] as usize] = t;
        self.grid[piece[2] as usize] = t;
        self.grid[piece[3] as usize] = t;
    }

    /// The cells of the falling piece.
    fn falling_piece(&self) -> (piece: [u8; 4])
        requires
            self.wf(),
            self@.active(),
        ensures
            piece[0] == self@.block(0),
            piece[1] == self@.block(1),
            piece[2] == self@.block(2),
            piece[3] == self@.block(3),
            piece[0] < GRID_CELLS,
            piece[1] < GRID_CELLS,
            piece[2] < GRID_CELLS,
            piece[3] < GRID_CELLS,
    {
        proof {
            lemma_piece_in_field(
                self.falling_pos as int,
                self.falling_rot as int,
                self.falling_type,
            );
            assert(cell_of(self@.falling_pos, self@.falling_rot, self@.falling_type, 0) >= 0);
            assert(cell_of(self@.falling_pos, self@.falling_rot, self@.falling_type, 1) >= 0);
            assert(cell_of(self@.falling_pos, self@.falling_rot, self@.falling_type, 2) >= 0);
            assert(cell_of(self@.falling_pos, self@.falling_rot, self@.falling_type, 3) >= 0);
        }
        pr2piece(self.falling_pos, self.falling_rot, self.falling_type, GRID_WIDTH)
    }

    /// Whether `cell` is empty.
    fn is_free(&self, cell: u8) -> (b: bool)
        requires
            cell < GRID_CELLS,
            self@.cells.len() == GRID_CELLS,
        ensures
            b == (self@.cells[cell as int] == BlockType::NONE),
    {
        self.grid[cell as usize] == BlockType::NONE
    }

    /// Tries to move the falling piece one column to the left. Nothing
    /// happens while no piece is falling or when the game is over.
    pub fn move_left(&mut self)
        requires
            old(self).wf(),
        ensures
            final(self).wf(),
            final(self)@ == old(self)@.moved_left(),
    {
        if self.falling_type == BlockType::NONE || self.dead {
            return ;
        }
        let piece_pos = self.falling_piece();
        self.put(&piece_pos, BlockType::NONE);
        let can_move = (piece_pos[0] % GRID_WIDTH != 0 && self.is_free(piece_pos[0] - 1)) && (
        piece_pos[1] % GRID_WIDTH != 0 && self.is_free(piece_pos[1] - 1)) && (piece_pos[2]
            % GRID_WIDTH != 0 && self.is_free(piece_pos[2] - 1)) && (piece_pos[3] % GRID_WIDTH
            != 0 && self.is_free(piece_pos[3] - 1));
        if can_move {
            proof {
                let f = old(self)@;
                lemma_go_left(f);
                lemma_piece_put_wf(f, f.falling_pos - 1, f.falling_rot);
                lemma_cells_follow(f.falling_pos, f.falling_rot, f.falling_type, -1, 0);
                lemma_cells_follow(f.falling_pos, f.falling_rot, f.falling_type, -1, 1);
                lemma_cells_follow(f.falling_pos, f.falling_rot, f.falling_type, -1, 2);
                lemma_cells_follow(f.falling_pos, f.falling_rot, f.falling_type, -1, 3);
            }
            let moved = [piece_pos[0] - 1, piece_pos[1] - 1, piece_pos[2] - 1, piece_pos[3] - 1];
            self.put(&moved, self.falling_type);
            self.falling_pos -= 1;
        } else {
            self.put(&piece_pos, self.falling_type);
            proof {
                lemma_put_back(old(self)@);
            }
        }
    }

    /// Tries to move the falling piece one column to the right. Nothing
    /// happens while no piece is falling or when the game is over.
    pub fn move_right(&mut self)
        requires
            old(self).wf(),
        ensures
            final(self).wf(),
            final(self)@ == old(self)@.moved_right(),
    {
        if self.falling_type == BlockType::NONE || self.dead {
            return ;
        }
        let piece_pos = self.falling_piece();
        self.put(&piece_pos, BlockType::NONE);
        let can_move = (piece_pos[0] % GRID_WIDTH != GRID_WIDTH - 1 && self.is_free(
            piece_pos[0] + 1,
        )) && (piece_pos[1] % GRID_WIDTH != GRID_WIDTH - 1 && self.is_free(piece_pos[1] + 1)) && (
        piece_pos[2] % GRID_WIDTH != GRID_WIDTH - 1 && self.is_free(piece_pos[2] + 1)) && (
        piece_pos[3] % GRID_WIDTH != GRID_WIDTH - 1 && self.is_free(piece_pos[3] + 1));
        if can_move {
            proof {
                let f = old(self)@;
                lemma_go_right(f);
                lemma_piece_put_wf(f, f.falling_pos + 1, f.falling_rot);
                lemma_cells_follow(f.falling_pos, f.falling_rot, f.falling_type, 1, 0);
                lemma_cells_follow(f.falling_pos, f.falling_rot, f.falling_type, 1, 1);
                lemma_cells_follow(f.falling_pos, f.falling_rot, f.falling_type, 1, 2);
                lemma_cells_follow(f.falling_pos, f.falling_rot, f.falling_type, 1, 3);
            }
            let moved = [piece_pos[0] + 1, piece_pos[1] + 1, piece_pos[2] + 1, piece_pos[3] + 1];
            self.put(&moved, self.falling_type);
            self.falling_pos += 1;
        } else {
            self.put(&piece_pos, self.falling_type);
            proof {
                lemma_put_back(old(self)@);
            }
        }
    }

    /// Tries to turn the falling piece clockwise. Nothing happens while no
    /// piece is falling or when the game is over.
    #[verifier::rlimit(40)]
    pub fn rotate_clockwise(&mut self)
        requires
            old(self).wf(),
        ensures
            final(self).wf(),
            final(self)@ == old(self)@.turned_clockwise(),
    {
        if self.falling_type == BlockType::NONE || self.dead {
            return ;
        }
        let next_rot = (self.falling_rot + 1) % 4;
        let piece_pos = self.falling_piece();
        self.put(&piece_pos, BlockType::NONE);
        let (leftmost, rightmost, lowest) = extent(&piece_pos);
        let mut can_rotate = !blocked_clockwise(
            self.falling_type,
            self.falling_rot,
            leftmost,
            rightmost,
            lowest,
        );
        if can_rotate {
            proof {
                let f = old(self)@;
                lemma_turn(f, true);
                lemma_piece_in_field(f.falling_pos, next_rot as int, f.falling_type);
                lemma_piece_put_wf(f, f.falling_pos, next_rot as int);
                assert(cell_of(f.falling_pos, next_rot as int, f.falling_type, 0) >= 0);
                assert(cell_of(f.falling_pos, next_rot as int, f.falling_type, 1) >= 0);
                assert(cell_of(f.falling_pos, next_rot as int, f.falling_type, 2) >= 0);
                assert(cell_of(f.falling_pos, next_rot as int, f.falling_type, 3) >= 0);
            }
            let rotated_pos = pr2piece(self.falling_pos, next_rot, self.falling_type, GRID_WIDTH);
            can_rotate = self.is_free(rotated_pos[0]) && self.is_free(rotated_pos[1])
                && self.is_free(rotated_pos[2]) && self.is_free(rotated_pos[3]);
            if can_rotate {
                self.put(&rotated_pos, self.falling_type);
                self.falling_rot = next_rot;
            } else {
                self.put(&piece_pos, self.falling_type);
                proof {
                    lemma_put_back(old(self)@);
                }
            }
        } else {
            self.put(&piece_pos, self.falling_type);
            proof {
                lemma_put_back(old(self)@);
            }
        }
    }

    /// Tries to turn the falling piece counter clockwise. Nothing happens
    /// while no piece is falling or when the game is over.
    #[verifier::rlimit(40)]
    pub fn rotate_counter_clockwise(&mut self)
        requires
            old(self).wf(),
        ensures
            final(self).wf(),
            final(self)@ == old(self)@.turned_counter_clockwise(),
    {
        if self.falling_type == BlockType::NONE || self.dead {
            return ;
        }
        let mut next_rot = self.falling_rot;
        if next_rot == 0 {
            next_rot = 3;
        } else {
            next_rot -= 1;
        }
        assert(next_rot == (self.falling_rot + 3) % 4);
        let piece_pos = self.falling_piece();
        self.put(&piece_pos, BlockType::NONE);
        let (leftmost, rightmost, lowest) = extent(&piece_pos);
        let mut can_rotate = !blocked_counter_clockwise(
            self.falling_type,
            self.falling_rot,
            leftmost,
            rightmost,
            lowest,
        );
        if can_rotate {
            proof {
                let f = old(self)@;
                lemma_turn(f, false);
                lemma_piece_in_field(f.falling_pos, next_rot as int, f.falling_type);
                lemma_piece_put_wf(f, f.falling_pos, next_rot as int);
                assert(cell_of(f.falling_pos, next_rot as int, f.falling_type, 0) >= 0);
                assert(cell_of(f.falling_pos, next_rot as int, f.falling_type, 1) >= 0);
                assert(cell_of(f.falling_pos, next_rot as int, f.falling_type, 2) >= 0);
                assert(cell_of(f.falling_pos, next_rot as int, f.falling_type, 3) >= 0);
            }
            let rotated_pos = pr2piece(self.falling_pos, next_rot, self.falling_type, GRID_WIDTH);
            can_rotate = self.is_free(rotated_pos[0]) && self.is_free(rotated_pos[1])
                && self.is_free(rotated_pos[2]) && self.is_free(rotated_pos[3]);
            if can_rotate {
                self.put(&rotated_pos, self.falling_type);
                self.falling_rot = next_rot;
            } else {
                self.put(&piece_pos, self.falling_type);
                proof {
                    lemma_put_back(old(self)@);
                }
            }
        } else {
            self.put(&piece_pos, self.falling_type);
            proof {
                lemma_put_back(old(self)@);
            }
        }
    }

    /// Whether no cell of row `y` is empty.
    fn row_is_full(&self, y: u8) -> (b: bool)
        requires
            y < GRID_HEIGHT,
            self@.cells.len() == GRID_CELLS,
        ensures
            b == row_full(self@.cells, y as int),
    {
        let mut x: u8 = 0;
        while x < GRID_WIDTH
            invariant
                x <= GRID_WIDTH,
                y < GRID_HEIGHT,
                self@.cells.len() == GRID_CELLS,
                forall|k: int| 0 <= k < x ==> #[trigger] self@.cells[10 * y + k] != BlockType::NONE,
            decreases GRID_WIDTH - x,
        {
            if self.grid[xy2p(x, y) as usize] == BlockType::NONE {
                assert(self@.cells[10 * y + x] == BlockType::NONE);
                return false;
            }
            x += 1;
        }
        true
    }

    /// Takes row `y` out: the rows above it come down by one, and the row
    /// on top is emptied.
    fn remove_row(&mut self, y: u8)
        requires
            y < GRID_HEIGHT,
            old(self)@.cells.len() == GRID_CELLS,
        ensures
            final(self)@ == (Field { cells: without_row(old(self)@.cells, y as int), ..old(self)@ }),
    {
        let mut j: u8 = y;
        while j < GRID_HEIGHT
            invariant
                y <= j <= GRID_HEIGHT,
                self@ == (Field { cells: self@.cells, ..old(self)@ }),
                self@.cells.len() == GRID_CELLS,
                forall|p: int|
                    0 <= p < GRID_CELLS ==> #[trigger] self@.cells[p] == (if 10 * y <= p < 10 * j {
                        old(self)@.cells[p + 10]
                    } else {
                        old(self)@.cells[p]
                    }),
            decreases GRID_HEIGHT - j,
        {
            let mut i: u8 = 0;
            while i < GRID_WIDTH
                invariant
                    i <= GRID_WIDTH,
                    y <= j < GRID_HEIGHT,
                    self@ == (Field { cells: self@.cells, ..old(self)@ }),
                    self@.cells.len() == GRID_CELLS,
                    forall|p: int|
                        0 <= p < GRID_CELLS ==> #[trigger] self@.cells[p] == (if 10 * y <= p < 10
                            * j + i {
                            old(self)@.cells[p + 10]
                        } else {
                            old(self)@.cells[p]
                        }),
                decreases GRID_WIDTH - i,
            {
                let above = self.grid[xy2p(i, j + 1) as usize];
                self.grid[xy2p(i, j) as usize] = above;
                i += 1;
            }
            j += 1;
        }
        let mut i: u8 = 0;
        while i < GRID_WIDTH
            invariant
                i <= GRID_WIDTH,
                self@ == (Field { cells: self@.cells, ..old(self)@ }),
                self@.cells.len() == GRID_CELLS,
                forall|p: int|
                    0 <= p < GRID_CELLS ==> #[trigger] self@.cells[p] == (if 10 * y <= p < 200 {
                        old(self)@.cells[p + 10]
                    } else if 200 <= p < 200 + i {
                        BlockType::NONE
                    } else {
                        old(self)@.cells[p]
                    }),
            decreases GRID_WIDTH - i,
        {
            self.grid[xy2p(i, GRID_HEIGHT) as usize] = BlockType::NONE;
            i += 1;
        }
        assert(self@.cells =~= without_row(old(self)@.cells, y as int));
    }

    /// Nanoseconds between two steps of the falling piece at the level
    /// reached: `START_BLOCK_SPEED_NANOSEC` at level 0 and
    /// `END_BLOCK_SPEED_NANOSEC`, or a little more, at level 255.
    fn fall_rate(&self) -> (rate: u32)
        ensures
            rate == rate_at(self@.level),
    {
        START_BLOCK_SPEED_NANOSEC - BLOCK_SPEED_STEP * (self.level as u32)
    }

    /// Clears the full rows and counts them.
    fn check_lines(&mut self)
        requires
            old(self).wf(),
            old(self)@.falling_type == BlockType::NONE,
            old(self)@.can_clear(),
        ensures
            final(self).wf(),
            final(self)@ == old(self)@.lines_checked(),
    {
        let mut to_clear: [bool; 20] = [false;20];
        let mut y: u8 = 0;
        while y < GRID_HEIGHT
            invariant
                y <= GRID_HEIGHT,
                self@ == old(self)@,
                old(self).wf(),
                forall|k: int| 0 <= k < y ==> #[trigger] to_clear[k] == row_full(self@.cells, k),
            decreases GRID_HEIGHT - y,
        {
            to_clear[y as usize] = self.row_is_full(y);
            y += 1;
        }
        let mut n: u8 = GRID_HEIGHT;
        while n > 0
            invariant
                n <= GRID_HEIGHT,
                self@ == (Field { cells: self@.cells, ..old(self)@ }),
                self@.cells.len() == GRID_CELLS,
                forall|k: int| 0 <= k < n ==> #[trigger] to_clear[k] == row_full(self@.cells, k),
                forall|k: int|
                    0 <= k < GRID_HEIGHT ==> #[trigger] to_clear[k] == row_full(
                        old(self)@.cells,
                        k,
                    ),
                collapsed(self@.cells, n as int) == collapsed(
                    old(self)@.cells,
                    GRID_HEIGHT as int,
                ),
            decreases n,
        {
            let row = n - 1;
            if to_clear[row as usize] {
                let ghost before = self@.cells;
                self.remove_row(row);
                proof {
                    assert forall|k: int| 0 <= k < row implies row_full(self@.cells, k)
                        == row_full(before, k) by {
                        lemma_row_below(before, row as int, k);
                    }
                }
            }
            n -= 1;
        }
        let mut clear_count: u32 = 0;
        let mut i: u8 = 0;
        while i < GRID_HEIGHT
            invariant
                i <= GRID_HEIGHT,
                clear_count == full_rows(old(self)@.cells, i as int),
                clear_count <= i,
                forall|k: int|
                    0 <= k < GRID_HEIGHT ==> #[trigger] to_clear[k] == row_full(
                        old(self)@.cells,
                        k,
                    ),
            decreases GRID_HEIGHT - i,
        {
            if to_clear[i as usize] {
                clear_count += 1;
            }
            i += 1;
        }
        let ghost lines = old(self)@.lines_cleared + clear_count;
        while clear_count > 0
            invariant
                self@ == (Field {
                    cells: collapsed(old(self)@.cells, GRID_HEIGHT as int),
                    lines_cleared: self@.lines_cleared,
                    level: self@.level,
                    fall_rate: self@.fall_rate,
                    ..old(self)@
                }),
                self@.lines_cleared + clear_count == lines,
                lines <= MAX_LINES,
                self@.level == self@.lines_cleared / 10,
                self@.fall_rate == rate_at(self@.level),
            decreases clear_count,
        {
            self.lines_cleared += 1;
            clear_count -= 1;
            if self.lines_cleared % (LINES_TO_CLEAR_TO_LVL_UP as u32) == 0 {
                self.level += 1;
                self.cached_fall_rate = self.fall_rate();
            }
        }
    }

    /// Draws the kind of a piece.
    fn draw_kind(&mut self) -> (kind: BlockType)
        requires
            old(self)@.seed <= crate::reblox::pseudo_random::MAX_SEED,
        ensures
            final(self)@ == (Field { seed: successor(old(self)@.seed), ..old(self)@ }),
            kind == kind_of((successor(old(self)@.seed) % 7) as int),
            kind.is_piece(),
    {
        let n = self.rng.next() % 7;
        if n == 0 {
            BlockType::I
        } else if n == 1 {
            BlockType::J
        } else if n == 2 {
            BlockType::L
        } else if n == 3 {
            BlockType::O
        } else if n == 4 {
            BlockType::S
        } else if n == 5 {
            BlockType::T
        } else {
            BlockType::Z
        }
    }

    /// Clears the full rows, lets the next piece enter and draws the one
    /// after it.
    fn generate_falling(&mut self)
        requires
            old(self).wf(),
            old(self)@.falling_type == BlockType::NONE,
            !old(self)@.dead,
            old(self)@.can_clear(),
        ensures
            final(self).wf(),
            final(self)@ == old(self)@.spawned(),
    {
        self.check_lines();
        self.falling_pos = xy2p(GRID_WIDTH / 2, GRID_HEIGHT - 1);
        self.falling_type = self.next_falling_type;
        self.falling_rot = self.next_falling_rot;
        self.next_falling_type = self.draw_kind();
        self.next_falling_rot = (self.rng.next() % 4) as u8;
        proof {
            lemma_entry_in_field(self.falling_rot as int, self.falling_type);
            lemma_piece_in_field(
                self.falling_pos as int,
                self.falling_rot as int,
                self.falling_type,
            );
            assert(cell_of(self@.falling_pos, self@.falling_rot, self@.falling_type, 0) >= 0);
            assert(cell_of(self@.falling_pos, self@.falling_rot, self@.falling_type, 1) >= 0);
            assert(cell_of(self@.falling_pos, self@.falling_rot, self@.falling_type, 2) >= 0);
            assert(cell_of(self@.falling_pos, self@.falling_rot, self@.falling_type, 3) >= 0);
        }
        let piece_pos = pr2piece(self.falling_pos, self.falling_rot, self.falling_type, GRID_WIDTH);
        let ghost start = self@;
        let mut i: usize = 0;
        while i < 4
            invariant
                i <= 4,
                self@ == (Field { cells: self@.cells, ..start }),
                self@.cells.len() == GRID_CELLS,
                !start.dead,
                start.falling_type.is_piece(),
                in_field(start.falling_pos, start.falling_rot, start.falling_type),
                start.steady(),
                forall|k: int| 0 <= k < 4 ==> piece_pos[k] == #[trigger] start.block(k),
                forall|k: int| 0 <= k < 4 ==> 0 <= #[trigger] start.block(k) < GRID_CELLS,
                forall|k: int|
                    0 <= k < i ==> self@.cells[#[trigger] start.block(k)] == start.falling_type,
                self@.entered(i as int) == start.entered(0),
                start.entered(0) == old(self)@.spawned(),
            decreases 4 - i,
        {
            assert(self@.block(i as int) == start.block(i as int));
            if self.grid[piece_pos[i] as usize] != BlockType::NONE {
                let ghost stopped = self@;
                assert(stopped.cells[stopped.block(i as int)] != BlockType::NONE);
                assert(stopped.entered(i as int) == (Field { dead: true, ..stopped }));
                self.dead = true;
                return ;
            } else {
                self.grid[piece_pos[i] as usize] = self.falling_type;
            }
            i += 1;
        }
        assert(start.block(0) == cell_of(start.falling_pos, start.falling_rot, start.falling_type, 0));
        assert(start.block(1) == cell_of(start.falling_pos, start.falling_rot, start.falling_type, 1));
        assert(start.block(2) == cell_of(start.falling_pos, start.falling_rot, start.falling_type, 2));
        assert(start.block(3) == cell_of(start.falling_pos, start.falling_rot, start.falling_type, 3));
    }

    /// Lets the falling piece make a step: one row down if it can go, and
    /// else it comes to rest and the next piece comes. Nothing happens
    /// while no piece is falling or when the game is over.
    pub fn simulate_falling(&mut self)
        requires
            old(self).wf(),
            old(self)@.can_clear(),
        ensures
            final(self).wf(),
            final(self)@ == old(self)@.fallen(),
    {
        if self.falling_type == BlockType::NONE || self.dead {
            return ;
        }
        let piece_pos = self.falling_piece();
        self.put(&piece_pos, BlockType::NONE);
        let can_fall = (piece_pos[0] >= GRID_WIDTH && self.is_free(piece_pos[0] - GRID_WIDTH)) && (
        piece_pos[1] >= GRID_WIDTH && self.is_free(piece_pos[1] - GRID_WIDTH)) && (piece_pos[2]
            >= GRID_WIDTH && self.is_free(piece_pos[2] - GRID_WIDTH)) && (piece_pos[3]
            >= GRID_WIDTH && self.is_free(piece_pos[3] - GRID_WIDTH));
        if can_fall {
            proof {
                let f = old(self)@;
                lemma_go_down(f);
                lemma_piece_put_wf(f, f.falling_pos - 10, f.falling_rot);
                lemma_cells_follow(f.falling_pos, f.falling_rot, f.falling_type, -10, 0);
                lemma_cells_follow(f.falling_pos, f.falling_rot, f.falling_type, -10, 1);
                lemma_cells_follow(f.falling_pos, f.falling_rot, f.falling_type, -10, 2);
                lemma_cells_follow(f.falling_pos, f.falling_rot, f.falling_type, -10, 3);
            }
            let moved = [
                piece_pos[0] - GRID_WIDTH,
                piece_pos[1] - GRID_WIDTH,
                piece_pos[2] - GRID_WIDTH,
                piece_pos[3] - GRID_WIDTH,
            ];
            self.put(&moved, self.falling_type);
            self.falling_pos -= GRID_WIDTH;
        } else {
            self.put(&piece_pos, self.falling_type);
            proof {
                lemma_put_back(old(self)@);
            }
            self.falling_type = BlockType::NONE;
            self.elapsed_time = 0;
            self.generate_falling();
        }
    }

    /// Whether the piece with the cells `piece`, `amount` cells further
    /// down, finds its cells empty.
    fn fits(&self, piece: &[u8; 4], amount: u8) -> (b: bool)
        requires
            self@.cells.len() == GRID_CELLS,
            forall|k: int| 0 <= k < 4 ==> amount <= #[trigger] piece[k] < GRID_CELLS,
        ensures
            b == (self@.cells[piece[0] - amount] == BlockType::NONE && self@.cells[piece[1]
                - amount] == BlockType::NONE && self@.cells[piece[2] - amount] == BlockType::NONE
                && self@.cells[piece[3] - amount] == BlockType::NONE),
    {
        self.is_free(piece[0] - amount) && self.is_free(piece[1] - amount) && self.is_free(
            piece[2] - amount,
        ) && self.is_free(piece[3] - amount)
    }

    /// Drops the falling piece as far as it can go and lets the next piece
    /// come. Nothing happens while no piece is falling or when the game is
    /// over.
    pub fn drop(&mut self)
        requires
            old(self).wf(),
            old(self)@.can_clear(),
        ensures
            final(self).wf(),
            final(self)@ == old(self)@.dropped(),
    {
        if self.falling_type == BlockType::NONE || self.dead {
            return ;
        }
        let piece_pos = self.falling_piece();
        self.put(&piece_pos, BlockType::NONE);
        let mut drop_amount: u8 = 0;
        loop
            invariant
                self@ == (Field { cells: old(self)@.bare(), ..old(self)@ }),
                old(self).wf(),
                old(self)@.active(),
                forall|k: int| 0 <= k < 4 ==> piece_pos[k] == #[trigger] old(self)@.block(k),
                forall|k: int| 0 <= k < 4 ==> drop_amount <= #[trigger] piece_pos[k] < GRID_CELLS,
                drop_amount < GRID_WIDTH * GRID_HEIGHT,
                old(self)@.fits_below(drop_amount as int),
                old(self)@.drop_amount(drop_amount as int) == old(self)@.drop_amount(0),
            ensures
                drop_amount == old(self)@.drop_amount(0),
            decreases GRID_CELLS - drop_amount,
        {
            if piece_pos[0] - drop_amount < GRID_WIDTH || piece_pos[1] - drop_amount < GRID_WIDTH
                || piece_pos[2] - drop_amount < GRID_WIDTH || piece_pos[3] - drop_amount
                < GRID_WIDTH {
                break ;
            }
            if !self.fits(&piece_pos, drop_amount + GRID_WIDTH) {
                break ;
            }
            proof {
                let f = old(self)@;
                lemma_has_origin(f.falling_rot, f.falling_type);
                assert(f.block(0) == f.falling_pos || f.block(1) == f.falling_pos || f.block(2)
                    == f.falling_pos);
            }
            drop_amount += GRID_WIDTH;
        }
        proof {
            let f = old(self)@;
            lemma_piece_in_field(f.falling_pos, f.falling_rot, f.falling_type);
            lemma_cells_follow(f.falling_pos, f.falling_rot, f.falling_type, -drop_amount, 0);
            lemma_cells_follow(f.falling_pos, f.falling_rot, f.falling_type, -drop_amount, 1);
            lemma_cells_follow(f.falling_pos, f.falling_rot, f.falling_type, -drop_amount, 2);
            lemma_cells_follow(f.falling_pos, f.falling_rot, f.falling_type, -drop_amount, 3);
        }
        let moved = [
            piece_pos[0] - drop_amount,
            piece_pos[1] - drop_amount,
            piece_pos[2] - drop_amount,
            piece_pos[3] - drop_amount,
        ];
        self.put(&moved, self.falling_type);
        self.falling_type = BlockType::NONE;
        self.elapsed_time = 0;
        self.generate_falling();
    }

    /// Lets `delta` go by. When the time for a step has come, the falling
    /// piece makes it, or a piece comes if none is falling. Nothing happens
    /// when the game is over.
    pub fn update(&mut self, delta: Duration)
        requires
            old(self).wf(),
            old(self)@.can_clear(),
            !old(self)@.dead ==> old(self)@.elapsed + nanos_of(delta) <= MAX_ELAPSED,
        ensures
            final(self).wf(),
            final(self)@ == old(self)@.updated(nanos_of(delta) as int),
    {
        if self.dead {
            return ;
        }
        self.elapsed_time = self.elapsed_time + delta.as_nanos();
        if self.elapsed_time >= self.cached_fall_rate as u128 {
            self.elapsed_time = self.elapsed_time - self.cached_fall_rate as u128;
            match self.falling_type {
                BlockType::NONE => self.generate_falling(),
                _ => self.simulate_falling(),
            }
        }
    }

    /// Lets `delta` go by if the time kept can take it: `update`, unless the
    /// game is running and `delta` would take the time kept beyond
    /// `MAX_ELAPSED`. Says whether the update was made; if not, nothing has
    /// changed.
    pub fn try_update(&mut self, delta: Duration) -> (done: bool)
        requires
            old(self).wf(),
            old(self)@.can_clear(),
        ensures
            final(self).wf(),
            done == (old(self)@.dead || old(self)@.elapsed + nanos_of(delta) <= MAX_ELAPSED),
            done ==> final(self)@ == old(self)@.updated(nanos_of(delta) as int),
            !done ==> final(self)@ == old(self)@,
    {
        if !self.dead && delta.as_nanos() > MAX_ELAPSED - self.elapsed_time {
            return false;
        }
        self.update(delta);
        true
    }

    /// Starts a new game: the field is emptied, no piece is falling, the
    /// next piece is drawn, and level, lines and time start from nothing.
    pub fn reset(&mut self)
        requires
            old(self)@.seed <= crate::reblox::pseudo_random::MAX_SEED,
            old(self)@.grid_size == GRID_WIDTH * GRID_HEIGHT,
        ensures
            final(self).wf(),
            final(self)@ == old(self)@.cleared(),
    {
        let mut i: usize = 0;
        while i < GRID_CELLS
            invariant
                i <= GRID_CELLS,
                self@ == (Field { cells: self@.cells, ..old(self)@ }),
                self@.cells.len() == GRID_CELLS,
                forall|k: int| 0 <= k < i ==> #[trigger] self@.cells[k] == BlockType::NONE,
            decreases GRID_CELLS - i,
        {
            self.grid[i] = BlockType::NONE;
            i += 1;
        }
        assert(self@.cells =~= Seq::new(GRID_CELLS as nat, |i: int| BlockType::NONE));
        self.falling_type = BlockType::NONE;
        self.next_falling_type = self.draw_kind();
        self.next_falling_rot = (self.rng.next() % 4) as u8;
        self.level = 0;
        self.lines_cleared = 0;
        self.elapsed_time = 0;
        self.cached_fall_rate = START_BLOCK_SPEED_NANOSEC;
        self.dead = false;
    }
}

/// Taking a row out leaves the rows below it as they are.
proof fn lemma_row_below(cells: Seq<BlockType>, y: int, k: int)
    requires
        0 <= k < y < GRID_HEIGHT,
        cells.len() == GRID_CELLS,
    ensures
        row_full(without_row(cells, y), k) == row_full(cells, k),
{
    let after = without_row(cells, y);
    assert forall|x: int| 0 <= x < GRID_WIDTH implies #[trigger] after[10 * k + x] == cells[10
        * k + x] by {}
    if row_full(cells, k) {
        assert forall|x: int| 0 <= x < GRID_WIDTH implies #[trigger] after[10 * k + x]
            != BlockType::NONE by {
            assert(cells[10 * k + x] != BlockType::NONE);
        }
    }
    if row_full(after, k) {
        assert forall|x: int| 0 <= x < GRID_WIDTH implies #[trigger] cells[10 * k + x]
            != BlockType::NONE by {
            assert(after[10 * k + x] != BlockType::NONE);
        }
    }
}

/// The extent `e` of some blocks, widened to take in `cell`: the least
/// column, the greatest column and the least row.
fn stretch(e: (u8, u8, u8), cell: u8) -> (r: (u8, u8, u8))
    ensures
        r.0 == least(e.0 as int, cell as int % 10),
        r.1 == greatest(e.1 as int, cell as int % 10),
        r.2 == least(e.2 as int, cell as int / 10),
{
    let mut leftmost = e.0;
    let mut rightmost = e.1;
    let mut lowest = e.2;
    if cell % GRID_WIDTH < leftmost {
        leftmost = cell % GRID_WIDTH;
    }
    if cell % GRID_WIDTH > rightmost {
        rightmost = cell % GRID_WIDTH;
    }
    if cell / GRID_WIDTH < lowest {
        lowest = cell / GRID_WIDTH;
    }
    (leftmost, rightmost, lowest)
}

/// The column of the leftmost block of `piece`, the column of its
/// rightmost block and the row of its lowest block.
fn extent(piece: &[u8; 4]) -> (e: (u8, u8, u8))
    ensures
        e.0 == least(
            least(piece[0] as int % 10, piece[1] as int % 10),
            least(piece[2] as int % 10, piece[3] as int % 10),
        ),
        e.1 == greatest(
            greatest(piece[0] as int % 10, piece[1] as int % 10),
            greatest(piece[2] as int % 10, piece[3] as int % 10),
        ),
        e.2 == least(
            least(piece[0] as int / 10, piece[1] as int / 10),
            least(piece[2] as int / 10, piece[3] as int / 10),
        ),
{
    let start = (GRID_WIDTH - 1, 0, GRID_HEIGHT * GRID_WIDTH);
    stretch(stretch(stretch(stretch(start, piece[0]), piece[1]), piece[2]), piece[3])
}

/// Whether a wall or the floor keeps a piece from turning clockwise.
fn blocked_clockwise(kind: BlockType, rot: u8, leftmost: u8, rightmost: u8, lowest: u8) -> (b:
    bool)
    ensures
        b == turn_blocked(
            clockwise_rule(kind),
            rot as int,
            leftmost as int,
            rightmost as int,
            lowest as int,
        ),
{
    match kind {
        BlockType::I => ((leftmost == 0 || leftmost == 1) && (rot == 0 || rot == 2)) || (rightmost
            == GRID_WIDTH - 1 && (rot == 0 || rot == 2)) || ((lowest == 0 || lowest == 1) && (rot
            == 1 || rot == 3)),
        BlockType::J => (leftmost == 0 && rot == 2) || (rightmost == GRID_WIDTH - 1 && rot == 0)
            || (lowest == 0 && rot == 1),
        BlockType::L => (leftmost == 0 && rot == 0) || (rightmost == GRID_WIDTH - 1 && rot == 2)
            || (lowest == 0 && rot == 3),
        BlockType::O => (leftmost == 0 && rot == 0) || (rightmost == GRID_WIDTH - 1 && rot == 2)
            || (lowest == 0 && rot == 3),
        _ => (leftmost == 0 && rot == 3) || (rightmost == GRID_WIDTH - 1 && rot == 1) || (lowest
            == 0 && rot == 2),
    }
}

/// Whether a wall or the floor keeps a piece from turning counter
/// clockwise.
fn blocked_counter_clockwise(
    kind: BlockType,
    rot: u8,
    leftmost: u8,
    rightmost: u8,
    lowest: u8,
) -> (b: bool)
    ensures
        b == turn_blocked(
            counter_clockwise_rule(kind),
            rot as int,
            leftmost as int,
            rightmost as int,
            lowest as int,
        ),
{
    match kind {
        BlockType::I => ((leftmost == 0 || leftmost == 1) && (rot == 0 || rot == 2)) || (rightmost
            == GRID_WIDTH - 1 && (rot == 0 || rot == 2)) || ((lowest == 0 || lowest == 1) && (rot
            == 1 || rot == 3)),
        BlockType::J => (leftmost == 0 && rot == 2) || (rightmost == GRID_WIDTH - 1 && rot == 0)
            || (lowest == 0 && rot == 1),
        BlockType::L => (leftmost == 0 && rot == 0) || (rightmost == GRID_WIDTH - 1 && rot == 2)
            || (lowest == 0 && rot == 3),
        _ => (leftmost == 0 && rot == 3) || (rightmost == GRID_WIDTH - 1 && rot == 1) || (lowest
            == 0 && rot == 2),
    }
}

} // verus!
