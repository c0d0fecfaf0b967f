//! The kinds of blocks and the shapes of the falling pieces.

use vstd::prelude::*;

verus! {

/// What a cell of the field holds: a block of one of the seven pieces,
/// garbage, or nothing.
#[derive(PartialEq, Eq, Clone, Copy, Debug, Structural)]
pub enum BlockType {
    I,
    J,
    L,
    O,
    S,
    T,
    Z,
    GARBAGE,
    NONE,
}

impl BlockType {
    /// Whether this is the kind of one of the seven pieces.
    pub open spec fn is_piece(self) -> bool {
        self != BlockType::GARBAGE && self != BlockType::NONE
    }

    /// How a cell of this kind is written: an empty cell shows a dot.
    pub fn to_str(&self) -> (s: &'static str)
        ensures
            s@ == (if *self == BlockType::NONE {
                " ."@
            } else {
                "  "@
            }),
    {
        match *self {
            BlockType::NONE => " .",
            _ => "  ",
        }
    }
}

/// Entry `i` of four offsets, the last for any `i` but 0, 1 and 2.
pub open spec fn pick(i: int, a: (int, int), b: (int, int), c: (int, int), d: (int, int)) -> (
    int,
    int,
) {
    if i == 0 {
        a
    } else if i == 1 {
        b
    } else if i == 2 {
        c
    } else {
        d
    }
}

/// Where block `i` of a piece lies from the piece's position: columns to
/// the right and rows up. A piece has four blocks; anything that is not a
/// piece, and any rotation but 0 to 3, has all of them on the spot.
#[verifier::opaque]
pub open spec fn offset(rotation: int, block_type: BlockType, i: int) -> (int, int) {
    if rotation == 0 {
        match block_type {
            BlockType::I => pick(i, (0, -1), (0, 0), (0, 1), (0, -2)),
            BlockType::J => pick(i, (0, -1), (0, 0), (0, 1), (-1, -1)),
            BlockType::L => pick(i, (0, -1), (0, 0), (0, 1), (1, -1)),
            BlockType::O => pick(i, (0, 0), (1, 0), (0, -1), (1, -1)),
            BlockType::S => pick(i, (0, 0), (1, 0), (0, -1), (-1, -1)),
            BlockType::T => pick(i, (-1, 0), (0, 0), (1, 0), (0, -1)),
            BlockType::Z => pick(i, (-1, 0), (0, 0), (0, -1), (1, -1)),
            _ => (0, 0),
        }
    } else if rotation == 1 {
        match block_type {
            BlockType::I => pick(i, (1, 0), (0, 0), (-1, 0), (-2, 0)),
            BlockType::J => pick(i, (1, 0), (0, 0), (-1, 0), (-1, 1)),
            BlockType::L => pick(i, (1, 0), (0, 0), (-1, 0), (-1, -1)),
            BlockType::O => pick(i, (0, 0), (-1, 0), (0, -1), (-1, -1)),
            BlockType::S => pick(i, (0, -1), (0, 0), (-1, 0), (-1, 1)),
            BlockType::T => pick(i, (0, 1), (0, 0), (0, -1), (-1, 0)),
            BlockType::Z => pick(i, (0, 1), (0, 0), (-1, 0), (-1, -1)),
            _ => (0, 0),
        }
    } else if rotation == 2 {
        match block_type {
            BlockType::I => pick(i, (0, -1), (0, 0), (0, 1), (0, -2)),
            BlockType::J => pick(i, (0, -1), (0, 0), (0, 1), (1, 1)),
            BlockType::L => pick(i, (0, -1), (0, 0), (0, 1), (-1, 1)),
            BlockType::O => pick(i, (0, 0), (-1, 0), (0, 1), (-1, 1)),
            BlockType::S => pick(i, (-1, 0), (0, 0), (0, 1), (1, 1)),
            BlockType::T => pick(i, (-1, 0), (0, 0), (1, 0), (0, 1)),
            BlockType::Z => pick(i, (1, 0), (0, 0), (0, 1), (-1, 1)),
            _ => (0, 0),
        }
    } else if rotation == 3 {
        match block_type {
            BlockType::I => pick(i, (1, 0), (0, 0), (-1, 0), (-2, 0)),
            BlockType::J => pick(i, (-1, 0), (0, 0), (1, 0), (1, -1)),
            BlockType::L => pick(i, (-1, 0), (0, 0), (1, 0), (1, 1)),
            BlockType::O => pick(i, (0, 0), (1, 0), (0, 1), (1, 1)),
            BlockType::S => pick(i, (0, 1), (0, 0), (1, 0), (1, -1)),
            BlockType::T => pick(i, (1, 0), (0, 1), (0, 0), (0, -1)),
            BlockType::Z => pick(i, (0, -1), (0, 0), (1, 0), (1, 1)),
            _ => (0, 0),
        }
    } else {
        (0, 0)
    }
}

/// `rise` rows in cells of a field that is `grid_width` wide.
pub open spec fn rows(grid_width: int, rise: int) -> int {
    if rise == -2 {
        -(grid_width + grid_width)
    } else if rise == -1 {
        -grid_width
    } else if rise == 1 {
        grid_width
    } else {
        0
    }
}

/// The cell of block `i` of the piece at `pos`; for what is not a piece,
/// cell 0.
pub open spec fn block_cell(
    pos: int,
    rotation: int,
    block_type: BlockType,
    grid_width: int,
    i: int,
) -> int {
    if block_type.is_piece() {
        pos + rows(grid_width, offset(rotation, block_type, i).1) + offset(
            rotation,
            block_type,
            i,
        ).0
    } else {
        0
    }
}

/// Whether block `i` can be found by stepping from `pos` first over the
/// rows and then over the columns without leaving the numbers of a byte.
pub open spec fn block_in_byte(
    pos: int,
    rotation: int,
    block_type: BlockType,
    grid_width: int,
    i: int,
) -> bool {
    let (right, rise) = offset(rotation, block_type, i);
    &&& 0 <= pos + rows(grid_width, rise) <= u8::MAX
    &&& 0 <= pos + rows(grid_width, rise) + right <= u8::MAX
    &&& rise == -2 ==> grid_width + grid_width <= u8::MAX
}

/// Whether all four blocks of the piece can be found within a byte.
pub open spec fn piece_in_byte(
    pos: int,
    rotation: int,
    block_type: BlockType,
    grid_width: int,
) -> bool {
    block_type.is_piece() ==> {
        &&& block_in_byte(pos, rotation, block_type, grid_width, 0)
        &&& block_in_byte(pos, rotation, block_type, grid_width, 1)
        &&& block_in_byte(pos, rotation, block_type, grid_width, 2)
        &&& block_in_byte(pos, rotation, block_type, grid_width, 3)
    }
}

/// The cells of a piece in rotation 0.
fn turned_0(pos: u8, block_type: BlockType, grid_width: u8) -> (piece: [u8; 4])
    requires
        piece_in_byte(pos as int, 0, block_type, grid_width as int),
    ensures
        piece[0] == block_cell(pos as int, 0, block_type, grid_width as int, 0),
        piece[1] == block_cell(pos as int, 0, block_type, grid_width as int, 1),
        piece[2] == block_cell(pos as int, 0, block_type, grid_width as int, 2),
        piece[3] == block_cell(pos as int, 0, block_type, grid_width as int, 3),
{
    proof {
        reveal(offset);
    }
    match block_type {
        BlockType::I => [pos - grid_width, pos, pos + grid_width, pos - grid_width * 2],
        BlockType::J => [pos - grid_width, pos, pos + grid_width, pos - grid_width - 1],
        BlockType::L => [pos - grid_width, pos, pos + grid_width, pos - grid_width + 1],
        BlockType::O => [pos, pos + 1, pos - grid_width, pos - grid_width + 1],
        BlockType::S => [pos, pos + 1, pos - grid_width, pos - grid_width - 1],
        BlockType::T => [pos - 1, pos, pos + 1, pos - grid_width],
        BlockType::Z => [pos - 1, pos, pos - grid_width, pos - grid_width + 1],
        _ => [0, 0, 0, 0],
    }
}

/// The cells of a piece in rotation 1.
fn turned_1(pos: u8, block_type: BlockType, grid_width: u8) -> (piece: [u8; 4])
    requires
        piece_in_byte(pos as int, 1, block_type, grid_width as int),
    ensures
        piece[0] == block_cell(pos as int, 1, block_type, grid_width as int, 0),
        piece[1] == block_cell(pos as int, 1, block_type, grid_width as int, 1),
        piece[2] == block_cell(pos as int, 1, block_type, grid_width as int, 2),
        piece[3] == block_cell(pos as int, 1, block_type, grid_width as int, 3),
{
    proof {
        reveal(offset);
    }
    match block_type {
        BlockType::I => [pos + 1, pos, pos - 1, pos - 2],
        BlockType::J => [pos + 1, pos, pos - 1, pos + grid_width - 1],
        BlockType::L => [pos + 1, pos, pos - 1, pos - grid_width - 1],
        BlockType::O => [pos, pos - 1, pos - grid_width, pos - grid_width - 1],
        BlockType::S => [pos - grid_width, pos, pos - 1, pos + grid_width - 1],
        BlockType::T => [pos + grid_width, pos, pos - grid_width, pos - 1],
        BlockType::Z => [pos + grid_width, pos, pos - 1, pos - grid_width - 1],
        _ => [0, 0, 0, 0],
    }
}

/// The cells of a piece in rotation 2.
fn turned_2(pos: u8, block_type: BlockType, grid_width: u8) -> (piece: [u8; 4])
    requires
        piece_in_byte(pos as int, 2, block_type, grid_width as int),
    ensures
        piece[0] == block_cell(pos as int, 2, block_type, grid_width as int, 0),
        piece[1] == block_cell(pos as int, 2, block_type, grid_width as int, 1),
        piece[2] == block_cell(pos as int, 2, block_type, grid_width as int, 2),
        piece[3] == block_cell(pos as int, 2, block_type, grid_width as int, 3),
{
    proof {
        reveal(offset);
    }
    match block_type {
        BlockType::I => [pos - grid_width, pos, pos + grid_width, pos - grid_width * 2],
        BlockType::J => [pos - grid_width, pos, pos + grid_width, pos + grid_width + 1],
        BlockType::L => [pos - grid_width, pos, pos + grid_width, pos + grid_width - 1],
        BlockType::O => [pos, pos - 1, pos + grid_width, pos + grid_width - 1],
        BlockType::S => [pos - 1, pos, pos + grid_width, pos + grid_width + 1],
        BlockType::T => [pos - 1, pos, pos + 1, pos + grid_width],
        BlockType::Z => [pos + 1, pos, pos + grid_width, pos + grid_width - 1],
        _ => [0, 0, 0, 0],
    }
}

/// The cells of a piece in rotation 3.
fn turned_3(pos: u8, block_type: BlockType, grid_width: u8) -> (piece: [u8; 4])
    requires
        piece_in_byte(pos as int, 3, block_type, grid_width as int),
    ensures
        piece[0] == block_cell(pos as int, 3, block_type, grid_width as int, 0),
        piece[1] == block_cell(pos as int, 3, block_type, grid_width as int, 1),
        piece[2] == block_cell(pos as int, 3, block_type, grid_width as int, 2),
        piece[3] == block_cell(pos as int, 3, block_type, grid_width as int, 3),
{
    proof {
        reveal(offset);
    }
    match block_type {
        BlockType::I => [pos + 1, pos, pos - 1, pos - 2],
        BlockType::J => [pos - 1, pos, pos + 1, pos - grid_width + 1],
        BlockType::L => [pos - 1, pos, pos + 1, pos + grid_width + 1],
        BlockType::O => [pos, pos + 1, pos + grid_width, pos + grid_width + 1],
        BlockType::S => [pos + grid_width, pos, pos + 1, pos - grid_width + 1],
        BlockType::T => [pos + 1, pos + grid_width, pos, pos - grid_width],
        BlockType::Z => [pos - grid_width, pos, pos + 1, pos + grid_width + 1],
        _ => [0, 0, 0, 0],
    }
}

/// The cells of the four blocks of the piece of kind `block_type` at `pos`
/// in rotation `rotation`, in a field `grid_width` wide.
pub fn pr2piece(pos: u8, rotation: u8, block_type: BlockType, grid_width: u8) -> (piece: [u8; 4])
    requires
        rotation < 4,
        piece_in_byte(pos as int, rotation as int, block_type, grid_width as int),
    ensures
        piece[0] == block_cell(pos as int, rotation as int, block_type, grid_width as int, 0),
        piece[1] == block_cell(pos as int, rotation as int, block_type, grid_width as int, 1),
        piece[2] == block_cell(pos as int, rotation as int, block_type, grid_width as int, 2),
        piece[3] == block_cell(pos as int, rotation as int, block_type, grid_width as int, 3),
{
    match rotation {
        0 => turned_0(pos, block_type, grid_width),
        1 => turned_1(pos, block_type, grid_width),
        2 => turned_2(pos, block_type, grid_width),
        3 => turned_3(pos, block_type, grid_width),
        _ => [0, 0, 0, 0],
    }
}

} // verus!
