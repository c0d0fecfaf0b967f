//! The playing field as a mathematical value, and what each step of the
//! game makes of it.

use crate::reblox::block::{block_cell, offset, piece_in_byte, BlockType};
use crate::reblox::pseudo_random::{successor, MAX_SEED};
use vstd::prelude::*;

verus! {

/// Number of columns of the field.
pub const GRID_WIDTH: u8 = 10;

/// Number of rows of the field in which blocks come to rest. One more row
/// lies above them, for the blocks of a piece that has just entered.
pub const GRID_HEIGHT: u8 = 20;

/// Number of cells of the field, the row on top included.
pub const GRID_CELLS: usize = 210;

/// Nanoseconds between two steps of the falling piece at level 0.
pub const START_BLOCK_SPEED_NANOSEC: u32 = 2000000000;

/// Nanoseconds between two steps of the falling piece at level 255.
pub const END_BLOCK_SPEED_NANOSEC: u32 = 50000000;

/// Nanoseconds by which the falling piece gets faster with each level: the
/// 255th part, rounded down, of the way from the pace at level 0 to the
/// pace at level 255.
pub const BLOCK_SPEED_STEP: u32 = 7647058;

/// Number of cleared lines that make a level.
pub const LINES_TO_CLEAR_TO_LVL_UP: u8 = 10;

/// The cell in which a piece enters the field.
pub const ENTRY: u8 = 195;

/// The greatest number of cleared lines that still has a level.
pub const MAX_LINES: u32 = 2559;

/// The longest span of time that can be kept, in nanoseconds.
pub const MAX_ELAPSED: u128 = 18446744073709551615999999999;

/// The playing field. Cell `x + 10 * y` is in column `x` and row `y`, row 0
/// at the bottom.
pub struct Field {
    /// What each cell holds.
    pub cells: Seq<BlockType>,
    /// The number of cells in which blocks come to rest.
    pub grid_size: int,
    /// The kind of the falling piece, `NONE` while no piece is falling.
    pub falling_type: BlockType,
    /// The cell of the falling piece.
    pub falling_pos: int,
    /// The rotation of the falling piece.
    pub falling_rot: int,
    /// The kind of the piece that enters next.
    pub next_type: BlockType,
    /// The rotation in which the next piece enters.
    pub next_rot: int,
    /// The state of the random number generator.
    pub seed: u64,
    /// The level reached.
    pub level: int,
    /// The number of lines cleared.
    pub lines_cleared: int,
    /// Nanoseconds gone by since the falling piece last made a step.
    pub elapsed: int,
    /// Nanoseconds between two steps of the falling piece.
    pub fall_rate: int,
    /// Whether the game is over.
    pub dead: bool,
}

/// Nanoseconds between two steps of the falling piece at `level`.
pub open spec fn rate_at(level: int) -> int {
    START_BLOCK_SPEED_NANOSEC - BLOCK_SPEED_STEP * level
}

/// The kind of piece that the random number `n` stands for.
pub open spec fn kind_of(n: int) -> BlockType {
    if n == 0 {
        BlockType::I
    } else if n == 1 {
        BlockType::J
    } else if n == 2 {
        BlockType::L
    } else if n == 3 {
        BlockType::O
    } else if n == 4 {
        BlockType::S
    } else if n == 5 {
        BlockType::T
    } else {
        BlockType::Z
    }
}

/// The cell of block `i` of a piece in the field.
pub open spec fn cell_of(pos: int, rot: int, kind: BlockType, i: int) -> int {
    block_cell(pos, rot, kind, GRID_WIDTH as int, i)
}

/// Whether block `i` of the piece lies in the field, in the column and row
/// that its offset from the piece's position says.
pub open spec fn block_in_field(pos: int, rot: int, kind: BlockType, i: int) -> bool {
    let (right, rise) = offset(rot, kind, i);
    0 <= pos % 10 + right <= 9 && 0 <= pos / 10 + rise <= GRID_HEIGHT
}

/// Whether the piece lies in the field with its position below the top row.
pub open spec fn in_field(pos: int, rot: int, kind: BlockType) -> bool {
    &&& kind.is_piece()
    &&& 0 <= rot < 4
    &&& 0 <= pos < GRID_WIDTH * GRID_HEIGHT
    &&& block_in_field(pos, rot, kind, 0)
    &&& block_in_field(pos, rot, kind, 1)
    &&& block_in_field(pos, rot, kind, 2)
    &&& block_in_field(pos, rot, kind, 3)
}

/// `cells` with `t` in the four cells `a`, `b`, `c` and `d`.
pub open spec fn put4(cells: Seq<BlockType>, a: int, b: int, c: int, d: int, t: BlockType) -> Seq<
    BlockType,
> {
    cells.update(a, t).update(b, t).update(c, t).update(d, t)
}

/// `cells` with `t` in the cells of the piece.
pub open spec fn with_piece(
    cells: Seq<BlockType>,
    pos: int,
    rot: int,
    kind: BlockType,
    t: BlockType,
) -> Seq<BlockType> {
    put4(
        cells,
        cell_of(pos, rot, kind, 0),
        cell_of(pos, rot, kind, 1),
        cell_of(pos, rot, kind, 2),
        cell_of(pos, rot, kind, 3),
        t,
    )
}

/// Whether the cells of the piece all hold `t`.
pub open spec fn holds(cells: Seq<BlockType>, pos: int, rot: int, kind: BlockType, t: BlockType) -> bool {
    &&& cells[cell_of(pos, rot, kind, 0)] == t
    &&& cells[cell_of(pos, rot, kind, 1)] == t
    &&& cells[cell_of(pos, rot, kind, 2)] == t
    &&& cells[cell_of(pos, rot, kind, 3)] == t
}

impl Field {
    /// Whether a piece is falling in a game that is not over.
    pub open spec fn active(self) -> bool {
        self.falling_type != BlockType::NONE && !self.dead
    }

    /// The cell of block `i` of the falling piece.
    pub open spec fn block(self, i: int) -> int {
        cell_of(self.falling_pos, self.falling_rot, self.falling_type, i)
    }

    /// The cells without the falling piece.
    pub open spec fn bare(self) -> Seq<BlockType> {
        with_piece(
            self.cells,
            self.falling_pos,
            self.falling_rot,
            self.falling_type,
            BlockType::NONE,
        )
    }

    /// The field with the falling piece at `pos` in rotation `rot`.
    pub open spec fn piece_put(self, pos: int, rot: int) -> Field {
        Field {
            cells: with_piece(self.bare(), pos, rot, self.falling_type, self.falling_type),
            falling_pos: pos,
            falling_rot: rot,
            ..self
        }
    }

    /// What holds of the field apart from its falling piece: the level is a
    /// tenth of the lines cleared and sets the pace, and the next piece is
    /// known.
    pub open spec fn steady(self) -> bool {
        &&& self.cells.len() == GRID_CELLS
        &&& self.grid_size == GRID_WIDTH * GRID_HEIGHT
        &&& self.falling_type != BlockType::GARBAGE
        &&& self.next_type.is_piece()
        &&& 0 <= self.next_rot < 4
        &&& self.seed <= MAX_SEED
        &&& 0 <= self.lines_cleared <= MAX_LINES
        &&& self.level == self.lines_cleared / (LINES_TO_CLEAR_TO_LVL_UP as int)
        &&& self.fall_rate == rate_at(self.level)
        &&& 0 <= self.elapsed <= MAX_ELAPSED
    }

    /// What holds of the field throughout a game: it is steady, and while a
    /// piece is falling in a game that is not over, the piece lies in the
    /// field and its cells hold its kind.
    pub open spec fn wf(self) -> bool {
        &&& self.steady()
        &&& self.active() ==> in_field(self.falling_pos, self.falling_rot, self.falling_type)
            && holds(
            self.cells,
            self.falling_pos,
            self.falling_rot,
            self.falling_type,
            self.falling_type,
        )
    }

    /// Whether block `i` of the falling piece can go one column to the left:
    /// it is not in the first column, and the cell to its left is empty or
    /// the piece's own.
    pub open spec fn block_can_go_left(self, i: int) -> bool {
        self.block(i) % 10 != 0 && self.bare()[self.block(i) - 1] == BlockType::NONE
    }

    /// Whether the falling piece can go one column to the left.
    pub open spec fn can_go_left(self) -> bool {
        &&& self.block_can_go_left(0)
        &&& self.block_can_go_left(1)
        &&& self.block_can_go_left(2)
        &&& self.block_can_go_left(3)
    }

    /// The field after a try to move the falling piece one column to the
    /// left: the piece is moved if it can go, and else nothing changes.
    pub open spec fn moved_left(self) -> Field {
        if self.active() && self.can_go_left() {
            self.piece_put(self.falling_pos - 1, self.falling_rot)
        } else {
            self
        }
    }

    /// Whether block `i` of the falling piece can go one column to the
    /// right.
    pub open spec fn block_can_go_right(self, i: int) -> bool {
        self.block(i) % 10 != 9 && self.bare()[self.block(i) + 1] == BlockType::NONE
    }

    /// Whether the falling piece can go one column to the right.
    pub open spec fn can_go_right(self) -> bool {
        &&& self.block_can_go_right(0)
        &&& self.block_can_go_right(1)
        &&& self.block_can_go_right(2)
        &&& self.block_can_go_right(3)
    }

    /// The field after a try to move the falling piece one column to the
    /// right.
    pub open spec fn moved_right(self) -> Field {
        if self.active() && self.can_go_right() {
            self.piece_put(self.falling_pos + 1, self.falling_rot)
        } else {
            self
        }
    }

    /// The column of the falling piece's leftmost block.
    pub open spec fn leftmost(self) -> int {
        least(
            least(self.block(0) % 10, self.block(1) % 10),
            least(self.block(2) % 10, self.block(3) % 10),
        )
    }

    /// The column of the falling piece's rightmost block.
    pub open spec fn rightmost(self) -> int {
        greatest(
            greatest(self.block(0) % 10, self.block(1) % 10),
            greatest(self.block(2) % 10, self.block(3) % 10),
        )
    }

    /// The row of the falling piece's lowest block.
    pub open spec fn lowest(self) -> int {
        least(
            least(self.block(0) / 10, self.block(1) / 10),
            least(self.block(2) / 10, self.block(3) / 10),
        )
    }

    /// Whether the walls and the floor let the falling piece turn clockwise.
    pub open spec fn free_to_turn_clockwise(self) -> bool {
        !turn_blocked(
            clockwise_rule(self.falling_type),
            self.falling_rot,
            self.leftmost(),
            self.rightmost(),
            self.lowest(),
        )
    }

    /// Whether the walls and the floor let the falling piece turn counter
    /// clockwise.
    pub open spec fn free_to_turn_counter_clockwise(self) -> bool {
        !turn_blocked(
            counter_clockwise_rule(self.falling_type),
            self.falling_rot,
            self.leftmost(),
            self.rightmost(),
            self.lowest(),
        )
    }

    /// Whether the falling piece, turned to `rot`, finds its cells empty or
    /// its own.
    pub open spec fn room_for(self, rot: int) -> bool {
        holds(self.bare(), self.falling_pos, rot, self.falling_type, BlockType::NONE)
    }

    /// The field after a try to turn the falling piece clockwise: it turns
    /// if walls, floor and the blocks at rest let it, and else nothing
    /// changes.
    pub open spec fn turned_clockwise(self) -> Field {
        let rot = (self.falling_rot + 1) % 4;
        if self.active() && self.free_to_turn_clockwise() && self.room_for(rot) {
            self.piece_put(self.falling_pos, rot)
        } else {
            self
        }
    }

    /// The field after a try to turn the falling piece counter clockwise.
    pub open spec fn turned_counter_clockwise(self) -> Field {
        let rot = (self.falling_rot + 3) % 4;
        if self.active() && self.free_to_turn_counter_clockwise() && self.room_for(rot) {
            self.piece_put(self.falling_pos, rot)
        } else {
            self
        }
    }

    /// Whether a game with this many lines cleared can clear every row of
    /// the field and still have a level.
    pub open spec fn can_clear(self) -> bool {
        self.lines_cleared + GRID_HEIGHT <= MAX_LINES
    }

    /// The field after its full rows are cleared: each of them is taken
    /// out, the rows above it come down, and the lines cleared, the level
    /// and the pace follow.
    pub open spec fn lines_checked(self) -> Field {
        let lines = self.lines_cleared + full_rows(self.cells, GRID_HEIGHT as int);
        Field {
            cells: collapsed(self.cells, GRID_HEIGHT as int),
            lines_cleared: lines,
            level: lines / (LINES_TO_CLEAR_TO_LVL_UP as int),
            fall_rate: rate_at(lines / (LINES_TO_CLEAR_TO_LVL_UP as int)),
            ..self
        }
    }

    /// The field after the blocks from `i` on of the falling piece have
    /// entered, one after the other. The game is over as soon as one of
    /// them finds its cell taken; the blocks before it stay.
    pub open spec fn entered(self, i: int) -> Field
        decreases 4 - i,
    {
        if i < 0 || i >= 4 {
            self
        } else if self.cells[self.block(i)] != BlockType::NONE {
            Field { dead: true, ..self }
        } else {
            (Field { cells: self.cells.update(self.block(i), self.falling_type), ..self }).entered(
                i + 1,
            )
        }
    }

    /// The field after the next piece has come: full rows are cleared, the
    /// piece announced enters at the top, and the piece after it is drawn,
    /// kind first and rotation second.
    pub open spec fn spawned(self) -> Field {
        let checked = self.lines_checked();
        let first = successor(checked.seed);
        let second = successor(first);
        (Field {
            falling_pos: ENTRY as int,
            falling_type: checked.next_type,
            falling_rot: checked.next_rot,
            next_type: kind_of((first % 7) as int),
            next_rot: (second % 4) as int,
            seed: second,
            ..checked
        }).entered(0)
    }

    /// The field with the falling piece laid to rest where it is, and the
    /// next piece come.
    pub open spec fn landed(self) -> Field {
        (Field { falling_type: BlockType::NONE, elapsed: 0, ..self }).spawned()
    }

    /// Whether block `i` of the falling piece can go one row down.
    pub open spec fn block_can_fall(self, i: int) -> bool {
        self.block(i) >= 10 && self.bare()[self.block(i) - 10] == BlockType::NONE
    }

    /// Whether the falling piece can go one row down.
    pub open spec fn can_fall(self) -> bool {
        &&& self.block_can_fall(0)
        &&& self.block_can_fall(1)
        &&& self.block_can_fall(2)
        &&& self.block_can_fall(3)
    }

    /// The field after a step of the falling piece: it goes one row down if
    /// it can, and else it comes to rest and the next piece comes.
    pub open spec fn fallen(self) -> Field {
        if !self.active() {
            self
        } else if self.can_fall() {
            self.piece_put(self.falling_pos - 10, self.falling_rot)
        } else {
            self.landed()
        }
    }

    /// Whether the falling piece, `amount` cells further down, has a block
    /// in the bottom row.
    pub open spec fn on_floor(self, amount: int) -> bool {
        ||| self.block(0) - amount < 10
        ||| self.block(1) - amount < 10
        ||| self.block(2) - amount < 10
        ||| self.block(3) - amount < 10
    }

    /// Whether the falling piece, `amount` cells further down, finds its
    /// cells empty or its own.
    pub open spec fn fits_below(self, amount: int) -> bool {
        &&& self.bare()[self.block(0) - amount] == BlockType::NONE
        &&& self.bare()[self.block(1) - amount] == BlockType::NONE
        &&& self.bare()[self.block(2) - amount] == BlockType::NONE
        &&& self.bare()[self.block(3) - amount] == BlockType::NONE
    }

    /// How many cells the falling piece drops when it is let go `amount`
    /// cells below its place: row by row, until it is on the floor or the
    /// next row does not take it.
    pub open spec fn drop_amount(self, amount: int) -> int
        decreases GRID_CELLS - amount,
    {
        if amount < 0 || amount >= GRID_WIDTH * GRID_HEIGHT {
            amount
        } else if self.on_floor(amount) || !self.fits_below(amount + 10) {
            amount
        } else {
            self.drop_amount(amount + 10)
        }
    }

    /// The field after the falling piece is dropped: it comes to rest as
    /// far down as it can go, and the next piece comes.
    pub open spec fn dropped(self) -> Field {
        if !self.active() {
            self
        } else {
            let down = self.drop_amount(0);
            (Field {
                cells: with_piece(
                    self.bare(),
                    self.falling_pos - down,
                    self.falling_rot,
                    self.falling_type,
                    self.falling_type,
                ),
                ..self
            }).landed()
        }
    }

    /// The field after `delta` nanoseconds have gone by. When the time for
    /// a step has come, it is taken off the time kept, and the falling piece
    /// makes its step, or a piece comes if none is falling.
    pub open spec fn updated(self, delta: int) -> Field {
        if self.dead {
            self
        } else if self.elapsed + delta >= self.fall_rate {
            let due = Field { elapsed: self.elapsed + delta - self.fall_rate, ..self };
            if due.falling_type == BlockType::NONE {
                due.spawned()
            } else {
                due.fallen()
            }
        } else {
            Field { elapsed: self.elapsed + delta, ..self }
        }
    }

    /// The field of a new game: empty, no piece falling, the next piece
    /// drawn, kind first and rotation second.
    pub open spec fn cleared(self) -> Field {
        let first = successor(self.seed);
        let second = successor(first);
        Field {
            cells: Seq::new(GRID_CELLS as nat, |i: int| BlockType::NONE),
            falling_type: BlockType::NONE,
            next_type: kind_of((first % 7) as int),
            next_rot: (second % 4) as int,
            seed: second,
            level: 0,
            lines_cleared: 0,
            elapsed: 0,
            fall_rate: START_BLOCK_SPEED_NANOSEC as int,
            dead: false,
            ..self
        }
    }
}

/// The lesser of two numbers.
pub open spec fn least(a: int, b: int) -> int {
    if a <= b {
        a
    } else {
        b
    }
}

/// The greater of two numbers.
pub open spec fn greatest(a: int, b: int) -> int {
    if a >= b {
        a
    } else {
        b
    }
}

/// When a wall or the floor keeps a piece from turning: the rotation in
/// which a piece in the first column does not turn, the one in which a piece
/// in the last column does not, and the one in which a piece in the bottom
/// row does not. The long piece has a rule of its own.
pub struct TurnRule {
    pub long: bool,
    pub at_left: int,
    pub at_right: int,
    pub at_floor: int,
}

/// The rule for turning a piece of `kind` clockwise.
pub open spec fn clockwise_rule(kind: BlockType) -> TurnRule {
    match kind {
        BlockType::I => TurnRule { long: true, at_left: 0, at_right: 0, at_floor: 1 },
        BlockType::J => TurnRule { long: false, at_left: 2, at_right: 0, at_floor: 1 },
        BlockType::L => TurnRule { long: false, at_left: 0, at_right: 2, at_floor: 3 },
        BlockType::O => TurnRule { long: false, at_left: 0, at_right: 2, at_floor: 3 },
        _ => TurnRule { long: false, at_left: 3, at_right: 1, at_floor: 2 },
    }
}

/// The rule for turning a piece of `kind` counter clockwise.
pub open spec fn counter_clockwise_rule(kind: BlockType) -> TurnRule {
    match kind {
        BlockType::I => TurnRule { long: true, at_left: 0, at_right: 0, at_floor: 1 },
        BlockType::J => TurnRule { long: false, at_left: 2, at_right: 0, at_floor: 1 },
        BlockType::L => TurnRule { long: false, at_left: 0, at_right: 2, at_floor: 3 },
        _ => TurnRule { long: false, at_left: 3, at_right: 1, at_floor: 2 },
    }
}

/// Whether `rule` keeps a piece in rotation `rot` from turning, its blocks
/// reaching to the columns `leftmost` and `rightmost` and down to the row
/// `lowest`. The long piece does not turn upright in the two bottom rows,
/// nor flat in the first two columns or the last one.
pub open spec fn turn_blocked(
    rule: TurnRule,
    rot: int,
    leftmost: int,
    rightmost: int,
    lowest: int,
) -> bool {
    if rule.long {
        ||| ((leftmost == 0 || leftmost == 1) && (rot == 0 || rot == 2))
        ||| (rightmost == GRID_WIDTH - 1 && (rot == 0 || rot == 2))
        ||| ((lowest == 0 || lowest == 1) && (rot == 1 || rot == 3))
    } else {
        ||| (leftmost == 0 && rot == rule.at_left)
        ||| (rightmost == GRID_WIDTH - 1 && rot == rule.at_right)
        ||| (lowest == 0 && rot == rule.at_floor)
    }
}

/// Whether no cell of row `y` is empty.
pub open spec fn row_full(cells: Seq<BlockType>, y: int) -> bool {
    forall|x: int| 0 <= x < GRID_WIDTH ==> #[trigger] cells[10 * y + x] != BlockType::NONE
}

/// The cells with row `y` taken out: the rows above it come down by one,
/// and the row on top is empty.
pub open spec fn without_row(cells: Seq<BlockType>, y: int) -> Seq<BlockType> {
    Seq::new(
        GRID_CELLS as nat,
        |p: int|
            if p < 10 * y {
                cells[p]
            } else if p < GRID_WIDTH * GRID_HEIGHT {
                cells[p + 10]
            } else {
                BlockType::NONE
            },
    )
}

/// The cells with every full row among the first `n` taken out, the
/// highest first.
pub open spec fn collapsed(cells: Seq<BlockType>, n: int) -> Seq<BlockType>
    decreases n,
{
    if n <= 0 {
        cells
    } else if row_full(cells, n - 1) {
        collapsed(without_row(cells, n - 1), n - 1)
    } else {
        collapsed(cells, n - 1)
    }
}

/// How many of the first `n` rows are full.
pub open spec fn full_rows(cells: Seq<BlockType>, n: int) -> int
    decreases n,
{
    if n <= 0 {
        0
    } else {
        full_rows(cells, n - 1) + if row_full(cells, n - 1) {
            1int
        } else {
            0int
        }
    }
}

/// Every rotation of every piece has a block on the piece's position.
pub proof fn lemma_has_origin(rot: int, kind: BlockType)
    requires
        kind.is_piece(),
        0 <= rot < 4,
    ensures
        offset(rot, kind, 0) == (0int, 0int) || offset(rot, kind, 1) == (0int, 0int) || offset(
            rot,
            kind,
            2,
        ) == (0int, 0int),
{
    reveal(offset);
}

/// No block lies more than two columns or two rows from its piece's
/// position.
pub proof fn lemma_offset_bounds(rot: int, kind: BlockType, i: int)
    ensures
        -2 <= offset(rot, kind, i).0 <= 1,
        -2 <= offset(rot, kind, i).1 <= 1,
{
    reveal(offset);
}

/// A block of a piece in the field has a cell of the field, in the column
/// and row that its offset says, and is found without leaving a byte.
pub proof fn lemma_block_in_field(pos: int, rot: int, kind: BlockType, i: int)
    requires
        kind.is_piece(),
        0 <= pos < GRID_WIDTH * GRID_HEIGHT,
        block_in_field(pos, rot, kind, i),
    ensures
        0 <= cell_of(pos, rot, kind, i) < GRID_CELLS,
        cell_of(pos, rot, kind, i) % 10 == pos % 10 + offset(rot, kind, i).0,
        cell_of(pos, rot, kind, i) / 10 == pos / 10 + offset(rot, kind, i).1,
        crate::reblox::block::block_in_byte(pos, rot, kind, GRID_WIDTH as int, i),
{
    lemma_offset_bounds(rot, kind, i);
    let (right, rise) = offset(rot, kind, i);
    let x = pos % 10;
    let y = pos / 10;
    assert(pos == 10 * y + x);
    assert(cell_of(pos, rot, kind, i) == 10 * (y + rise) + (x + right));
}

/// A piece in the field has its four blocks in cells of the field and is
/// found without leaving a byte.
pub proof fn lemma_piece_in_field(pos: int, rot: int, kind: BlockType)
    requires
        in_field(pos, rot, kind),
    ensures
        piece_in_byte(pos, rot, kind, GRID_WIDTH as int),
        forall|i: int|
            0 <= i < 4 ==> 0 <= #[trigger] cell_of(pos, rot, kind, i) < GRID_CELLS && cell_of(
                pos,
                rot,
                kind,
                i,
            ) % 10 == pos % 10 + offset(rot, kind, i).0 && cell_of(pos, rot, kind, i) / 10 == pos
                / 10 + offset(rot, kind, i).1,
{
    lemma_block_in_field(pos, rot, kind, 0);
    lemma_block_in_field(pos, rot, kind, 1);
    lemma_block_in_field(pos, rot, kind, 2);
    lemma_block_in_field(pos, rot, kind, 3);
}

/// A piece in the field, moved by `right` columns and `rise` rows so that
/// each of its blocks stays in the field and its position below the top
/// row, is a piece in the field, and each block has moved as the piece has.
pub proof fn lemma_moved_piece(pos: int, rot: int, kind: BlockType, right: int, rise: int)
    requires
        in_field(pos, rot, kind),
        forall|i: int|
            0 <= i < 4 ==> 0 <= pos % 10 + (#[trigger] offset(rot, kind, i)).0 + right <= 9 && 0
                <= pos / 10 + offset(rot, kind, i).1 + rise <= GRID_HEIGHT,
        pos / 10 + rise < GRID_HEIGHT,
    ensures
        in_field(pos + right + 10 * rise, rot, kind),
        forall|i: int|
            0 <= i < 4 ==> #[trigger] cell_of(pos + right + 10 * rise, rot, kind, i) == cell_of(
                pos,
                rot,
                kind,
                i,
            ) + right + 10 * rise,
{
    lemma_has_origin(rot, kind);
    assert(offset(rot, kind, 0).0 == offset(rot, kind, 0).0);
    assert(offset(rot, kind, 1).0 == offset(rot, kind, 1).0);
    assert(offset(rot, kind, 2).0 == offset(rot, kind, 2).0);
    assert(offset(rot, kind, 3).0 == offset(rot, kind, 3).0);
    let x = pos % 10;
    let y = pos / 10;
    assert(0 <= x + right <= 9 && 0 <= y + rise < 20);
    let moved = pos + right + 10 * rise;
    assert(moved == 10 * (y + rise) + (x + right));
    assert(moved % 10 == x + right && moved / 10 == y + rise);
}

/// The cells of a piece follow its position.
pub proof fn lemma_cells_follow(pos: int, rot: int, kind: BlockType, by: int, i: int)
    ensures
        kind.is_piece() ==> cell_of(pos + by, rot, kind, i) == cell_of(pos, rot, kind, i) + by,
{
}

/// Every piece enters the field in every rotation.
pub proof fn lemma_entry_in_field(rot: int, kind: BlockType)
    requires
        kind.is_piece(),
        0 <= rot < 4,
    ensures
        in_field(ENTRY as int, rot, kind),
{
    reveal(offset);
}

/// Taking the falling piece off the field and putting it back where it was
/// changes nothing.
pub proof fn lemma_put_back(f: Field)
    requires
        f.wf(),
        f.active(),
    ensures
        f.piece_put(f.falling_pos, f.falling_rot) == f,
{
    lemma_piece_in_field(f.falling_pos, f.falling_rot, f.falling_type);
    assert(f.piece_put(f.falling_pos, f.falling_rot).cells =~= f.cells);
}

/// The field stays one of a game when its falling piece is put somewhere
/// in the field.
pub proof fn lemma_piece_put_wf(f: Field, pos: int, rot: int)
    requires
        f.wf(),
        f.active(),
        in_field(pos, rot, f.falling_type),
    ensures
        f.piece_put(pos, rot).wf(),
{
    lemma_piece_in_field(f.falling_pos, f.falling_rot, f.falling_type);
    lemma_piece_in_field(pos, rot, f.falling_type);
}

/// A falling piece with no block in the first column lies in the field one
/// column further left.
pub proof fn lemma_go_left(f: Field)
    requires
        f.wf(),
        f.active(),
        f.block(0) % 10 != 0,
        f.block(1) % 10 != 0,
        f.block(2) % 10 != 0,
        f.block(3) % 10 != 0,
    ensures
        in_field(f.falling_pos - 1, f.falling_rot, f.falling_type),
        f.falling_pos >= 1,
{
    lemma_piece_in_field(f.falling_pos, f.falling_rot, f.falling_type);
    assert forall|i: int| 0 <= i < 4 implies 0 <= f.falling_pos % 10 + (#[trigger] offset(
        f.falling_rot,
        f.falling_type,
        i,
    )).0 - 1 <= 9 by {
        assert(f.block(i) == cell_of(f.falling_pos, f.falling_rot, f.falling_type, i));
    }
    lemma_moved_piece(f.falling_pos, f.falling_rot, f.falling_type, -1, 0);
}

/// A falling piece with no block in the last column lies in the field one
/// column further right.
pub proof fn lemma_go_right(f: Field)
    requires
        f.wf(),
        f.active(),
        f.block(0) % 10 != 9,
        f.block(1) % 10 != 9,
        f.block(2) % 10 != 9,
        f.block(3) % 10 != 9,
    ensures
        in_field(f.falling_pos + 1, f.falling_rot, f.falling_type),
        f.falling_pos + 1 < GRID_WIDTH * GRID_HEIGHT,
{
    lemma_piece_in_field(f.falling_pos, f.falling_rot, f.falling_type);
    assert forall|i: int| 0 <= i < 4 implies 0 <= f.falling_pos % 10 + (#[trigger] offset(
        f.falling_rot,
        f.falling_type,
        i,
    )).0 + 1 <= 9 by {
        assert(f.block(i) == cell_of(f.falling_pos, f.falling_rot, f.falling_type, i));
    }
    lemma_moved_piece(f.falling_pos, f.falling_rot, f.falling_type, 1, 0);
}

/// A falling piece with no block in the bottom row lies in the field one
/// row further down.
pub proof fn lemma_go_down(f: Field)
    requires
        f.wf(),
        f.active(),
        f.block(0) >= 10,
        f.block(1) >= 10,
        f.block(2) >= 10,
        f.block(3) >= 10,
    ensures
        in_field(f.falling_pos - 10, f.falling_rot, f.falling_type),
        f.falling_pos >= 10,
{
    lemma_piece_in_field(f.falling_pos, f.falling_rot, f.falling_type);
    assert forall|i: int| 0 <= i < 4 implies 0 <= f.falling_pos / 10 + (#[trigger] offset(
        f.falling_rot,
        f.falling_type,
        i,
    )).1 - 1 <= GRID_HEIGHT by {
        assert(f.block(i) == cell_of(f.falling_pos, f.falling_rot, f.falling_type, i));
    }
    lemma_moved_piece(f.falling_pos, f.falling_rot, f.falling_type, 0, -1);
}

/// Whether the four blocks of a piece whose position is in column `x` and
/// row `y` lie in the field.
pub open spec fn blocks_fit(x: int, y: int, rot: int, kind: BlockType) -> bool {
    &&& 0 <= x + offset(rot, kind, 0).0 <= 9 && 0 <= y + offset(rot, kind, 0).1 <= GRID_HEIGHT
    &&& 0 <= x + offset(rot, kind, 1).0 <= 9 && 0 <= y + offset(rot, kind, 1).1 <= GRID_HEIGHT
    &&& 0 <= x + offset(rot, kind, 2).0 <= 9 && 0 <= y + offset(rot, kind, 2).1 <= GRID_HEIGHT
    &&& 0 <= x + offset(rot, kind, 3).0 <= 9 && 0 <= y + offset(rot, kind, 3).1 <= GRID_HEIGHT
}

/// The least of the columns of the four blocks, counted from the piece's
/// position.
pub open spec fn reach_left(rot: int, kind: BlockType) -> int {
    least(
        least(offset(rot, kind, 0).0, offset(rot, kind, 1).0),
        least(offset(rot, kind, 2).0, offset(rot, kind, 3).0),
    )
}

/// The greatest of the columns of the four blocks, counted from the
/// piece's position.
pub open spec fn reach_right(rot: int, kind: BlockType) -> int {
    greatest(
        greatest(offset(rot, kind, 0).0, offset(rot, kind, 1).0),
        greatest(offset(rot, kind, 2).0, offset(rot, kind, 3).0),
    )
}

/// The least of the rows of the four blocks, counted from the piece's
/// position.
pub open spec fn reach_down(rot: int, kind: BlockType) -> int {
    least(
        least(offset(rot, kind, 0).1, offset(rot, kind, 1).1),
        least(offset(rot, kind, 2).1, offset(rot, kind, 3).1),
    )
}

/// A piece in the field that its rule lets turn lies in the field after
/// the turn, a quarter either way.
pub proof fn lemma_turn_fits(x: int, y: int, rot: int, kind: BlockType, clockwise: bool)
    requires
        kind.is_piece(),
        0 <= rot < 4,
        0 <= y < GRID_HEIGHT,
        blocks_fit(x, y, rot, kind),
        !turn_blocked(
            if clockwise {
                clockwise_rule(kind)
            } else {
                counter_clockwise_rule(kind)
            },
            rot,
            x + reach_left(rot, kind),
            x + reach_right(rot, kind),
            y + reach_down(rot, kind),
        ),
    ensures
        blocks_fit(
            x,
            y,
            if clockwise {
                (rot + 1) % 4
            } else {
                (rot + 3) % 4
            },
            kind,
        ),
{
    reveal(offset);
}

/// A falling piece that walls and floor let turn lies in the field after
/// the turn.
pub proof fn lemma_turn(f: Field, clockwise: bool)
    requires
        f.wf(),
        f.active(),
        clockwise ==> f.free_to_turn_clockwise(),
        !clockwise ==> f.free_to_turn_counter_clockwise(),
    ensures
        in_field(
            f.falling_pos,
            if clockwise {
                (f.falling_rot + 1) % 4
            } else {
                (f.falling_rot + 3) % 4
            },
            f.falling_type,
        ),
{
    let x = f.falling_pos % 10;
    let y = f.falling_pos / 10;
    lemma_piece_in_field(f.falling_pos, f.falling_rot, f.falling_type);
    assert(f.block(0) == cell_of(f.falling_pos, f.falling_rot, f.falling_type, 0));
    assert(f.block(1) == cell_of(f.falling_pos, f.falling_rot, f.falling_type, 1));
    assert(f.block(2) == cell_of(f.falling_pos, f.falling_rot, f.falling_type, 2));
    assert(f.block(3) == cell_of(f.falling_pos, f.falling_rot, f.falling_type, 3));
    assert(f.leftmost() == x + reach_left(f.falling_rot, f.falling_type));
    assert(f.rightmost() == x + reach_right(f.falling_rot, f.falling_type));
    assert(f.lowest() == y + reach_down(f.falling_rot, f.falling_type));
    lemma_turn_fits(x, y, f.falling_rot, f.falling_type, clockwise);
}

} // verus!
