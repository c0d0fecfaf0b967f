//! The static estimate of a running game, from who holds the corners and
//! the cells next to them.

use crate::rusthello::board::{Board, Coord, SearchError, NUM_CELLS};
use crate::rusthello::score::{Ratio, Side};
use vstd::prelude::*;

verus! {

/// Points for holding a corner.
pub const CORNER_BONUS: u16 = 45;

/// Points given to the opponent of whoever sits diagonally next to an empty
/// corner.
pub const ODD_CORNER_MALUS: u16 = 25;

/// Points for sitting on the diagonal two cells from an empty corner, the
/// cell between being empty.
pub const EVEN_CORNER_BONUS: u16 = 10;

/// Points given to the opponent of whoever sits on an edge next to an empty
/// corner.
pub const ODD_MALUS: u16 = 6;

/// Points for sitting on an edge two cells from an empty corner, the cell
/// between being empty.
pub const EVEN_BONUS: u16 = 4;

/// The seven cells looked at around one corner: the corner, then along one
/// edge, along the diagonal and along the other edge the cell next to the
/// corner ("odd") and the one after it ("even").
#[derive(Clone, Copy, Debug, PartialEq, Eq, Structural)]
pub struct Neighbourhood {
    pub corner: Coord,
    pub odd: Coord,
    pub odd_corner: Coord,
    pub even: Coord,
    pub even_corner: Coord,
    pub counter_odd: Coord,
    pub counter_even: Coord,
}

/// Shorthand for a cell in specifications.
pub open spec fn cell(row: usize, col: usize) -> Coord {
    Coord { row, col }
}

/// The neighbourhoods of the four corners: north-west, north-east,
/// south-west, south-east.
pub open spec fn neighbourhood(k: int) -> Neighbourhood {
    if k == 0 {
        Neighbourhood {
            corner: cell(0, 0),
            odd: cell(0, 1),
            odd_corner: cell(1, 1),
            even: cell(0, 2),
            even_corner: cell(2, 2),
            counter_odd: cell(1, 0),
            counter_even: cell(2, 0),
        }
    } else if k == 1 {
        Neighbourhood {
            corner: cell(0, 7),
            odd: cell(1, 7),
            odd_corner: cell(1, 6),
            even: cell(2, 7),
            even_corner: cell(2, 5),
            counter_odd: cell(0, 6),
            counter_even: cell(0, 5),
        }
    } else if k == 2 {
        Neighbourhood {
            corner: cell(7, 0),
            odd: cell(6, 0),
            odd_corner: cell(6, 1),
            even: cell(5, 0),
            even_corner: cell(5, 2),
            counter_odd: cell(7, 1),
            counter_even: cell(7, 2),
        }
    } else {
        Neighbourhood {
            corner: cell(7, 7),
            odd: cell(6, 7),
            odd_corner: cell(6, 6),
            even: cell(5, 7),
            even_corner: cell(5, 5),
            counter_odd: cell(7, 6),
            counter_even: cell(7, 5),
        }
    }
}

/// What `side` gains from the two cells `near` and `far` on a line out of an
/// empty corner. A disk on `near` gives `malus` to the opponent of its owner,
/// whatever is on `far`; with `near` empty, a disk on `far` gives `bonus` to
/// its owner.
pub open spec fn pair_credit(
    cells: Seq<Option<Side>>,
    near: Coord,
    far: Coord,
    malus: int,
    bonus: int,
    side: Side,
) -> int {
    match cells[near.index()] {
        Some(owner) => if owner != side {
            malus
        } else {
            0
        },
        None => match cells[far.index()] {
            Some(owner) => if owner == side {
                bonus
            } else {
                0
            },
            None => 0,
        },
    }
}

/// What `side` gains around one corner. A held corner gives its bonus to the
/// holder and nothing else counts; around an empty corner the two edges and
/// the diagonal count.
pub open spec fn corner_credit(cells: Seq<Option<Side>>, n: Neighbourhood, side: Side) -> int {
    match cells[n.corner.index()] {
        Some(owner) => if owner == side {
            CORNER_BONUS as int
        } else {
            0
        },
        None => pair_credit(cells, n.odd, n.even, ODD_MALUS as int, EVEN_BONUS as int, side)
            + pair_credit(
            cells,
            n.counter_odd,
            n.counter_even,
            ODD_MALUS as int,
            EVEN_BONUS as int,
            side,
        ) + pair_credit(
            cells,
            n.odd_corner,
            n.even_corner,
            ODD_CORNER_MALUS as int,
            EVEN_CORNER_BONUS as int,
            side,
        ),
    }
}

/// What `side` gains around the first `k` corners.
pub open spec fn credit_upto(cells: Seq<Option<Side>>, side: Side, k: nat) -> int
    decreases k,
{
    if k == 0 {
        0
    } else {
        credit_upto(cells, side, (k - 1) as nat) + corner_credit(
            cells,
            neighbourhood(k - 1),
            side,
        )
    }
}

/// The total of `side`: one point to begin with, so that the two totals
/// never add up to nothing, and what it gains around the four corners.
pub open spec fn total(cells: Seq<Option<Side>>, side: Side) -> int {
    1 + credit_upto(cells, side, 4)
}

/// The estimate of a board: the difference of the two totals over their sum,
/// a value strictly between -1 and 1 that is positive where Light is ahead.
pub open spec fn estimate(cells: Seq<Option<Side>>) -> Ratio {
    Ratio {
        num: (total(cells, Side::Light) - total(cells, Side::Dark)) as i64,
        den: (total(cells, Side::Light) + total(cells, Side::Dark)) as i64,
    }
}

/// The greatest total a side can reach: its first point and four corners.
pub open spec fn max_total() -> int {
    1 + 4 * CORNER_BONUS
}

/// Around no corner does a side gain more than the corner itself is worth.
pub proof fn lemma_corner_credit_bounds(cells: Seq<Option<Side>>, n: Neighbourhood, side: Side)
    ensures
        0 <= corner_credit(cells, n, side) <= CORNER_BONUS,
{
}

/// Each total lies between 1 and `max_total()`.
pub proof fn lemma_total_bounds(cells: Seq<Option<Side>>, side: Side)
    ensures
        1 <= total(cells, side) <= max_total(),
{
    reveal_with_fuel(credit_upto, 5);
    lemma_corner_credit_bounds(cells, neighbourhood(0), side);
    lemma_corner_credit_bounds(cells, neighbourhood(1), side);
    lemma_corner_credit_bounds(cells, neighbourhood(2), side);
    lemma_corner_credit_bounds(cells, neighbourhood(3), side);
}

/// The estimate is a well-formed fraction strictly between -1 and 1, made of
/// the two totals.
pub proof fn lemma_estimate_range(cells: Seq<Option<Side>>)
    ensures
        estimate(cells).wf(),
        estimate(cells).num == total(cells, Side::Light) - total(cells, Side::Dark),
        estimate(cells).den == total(cells, Side::Light) + total(cells, Side::Dark),
        -estimate(cells).den < estimate(cells).num < estimate(cells).den,
        estimate(cells).den <= 2 * max_total(),
{
    lemma_total_bounds(cells, Side::Light);
    lemma_total_bounds(cells, Side::Dark);
}

/// The other side.
pub open spec fn opponent(side: Side) -> Side {
    match side {
        Side::Light => Side::Dark,
        Side::Dark => Side::Light,
    }
}

/// The occupant with sides exchanged.
pub open spec fn flipped(occupant: Option<Side>) -> Option<Side> {
    match occupant {
        Some(side) => Some(opponent(side)),
        None => None,
    }
}

/// The board seen in a mirror that exchanges left and right, with the two
/// sides exchanged.
pub open spec fn mirrored(cells: Seq<Option<Side>>) -> Seq<Option<Side>> {
    Seq::new(cells.len(), |i: int| flipped(cells[(i / 8) * 8 + (7 - i % 8)]))
}

/// The cell that a left-to-right mirror shows in the place of `c`.
pub open spec fn reflected(c: Coord) -> Coord {
    Coord { row: c.row, col: (7 - c.col) as usize }
}

/// The neighbourhood whose cells are the mirror images of those of `n`.
pub open spec fn reflected_neighbourhood(n: Neighbourhood) -> Neighbourhood {
    Neighbourhood {
        corner: reflected(n.corner),
        odd: reflected(n.odd),
        odd_corner: reflected(n.odd_corner),
        even: reflected(n.even),
        even_corner: reflected(n.even_corner),
        counter_odd: reflected(n.counter_odd),
        counter_even: reflected(n.counter_even),
    }
}

proof fn lemma_mirrored_cell(cells: Seq<Option<Side>>, c: Coord)
    requires
        cells.len() == NUM_CELLS,
        c.on_board(),
    ensures
        mirrored(cells)[c.index()] == flipped(cells[reflected(c).index()]),
{
    let i = c.index();
    assert(i / 8 == c.row && i % 8 == c.col);
}

proof fn lemma_mirrored_pair(
    cells: Seq<Option<Side>>,
    near: Coord,
    far: Coord,
    malus: int,
    bonus: int,
    side: Side,
)
    requires
        cells.len() == NUM_CELLS,
        near.on_board(),
        far.on_board(),
    ensures
        pair_credit(mirrored(cells), near, far, malus, bonus, side) == pair_credit(
            cells,
            reflected(near),
            reflected(far),
            malus,
            bonus,
            opponent(side),
        ),
{
    lemma_mirrored_cell(cells, near);
    lemma_mirrored_cell(cells, far);
}

proof fn lemma_mirrored_corner(cells: Seq<Option<Side>>, n: Neighbourhood, side: Side)
    requires
        cells.len() == NUM_CELLS,
        n.corner.on_board(),
        n.odd.on_board(),
        n.odd_corner.on_board(),
        n.even.on_board(),
        n.even_corner.on_board(),
        n.counter_odd.on_board(),
        n.counter_even.on_board(),
    ensures
        corner_credit(mirrored(cells), n, side) == corner_credit(
            cells,
            reflected_neighbourhood(n),
            opponent(side),
        ),
{
    lemma_mirrored_cell(cells, n.corner);
    lemma_mirrored_pair(cells, n.odd, n.even, ODD_MALUS as int, EVEN_BONUS as int, side);
    lemma_mirrored_pair(
        cells,
        n.counter_odd,
        n.counter_even,
        ODD_MALUS as int,
        EVEN_BONUS as int,
        side,
    );
    lemma_mirrored_pair(
        cells,
        n.odd_corner,
        n.even_corner,
        ODD_CORNER_MALUS as int,
        EVEN_CORNER_BONUS as int,
        side,
    );
}

/// The neighbourhood `n` with the roles of its two edges exchanged.
pub open spec fn edges_exchanged(n: Neighbourhood) -> Neighbourhood {
    Neighbourhood {
        corner: n.corner,
        odd: n.counter_odd,
        odd_corner: n.odd_corner,
        even: n.counter_even,
        even_corner: n.even_corner,
        counter_odd: n.odd,
        counter_even: n.even,
    }
}

/// Which edge of a corner is looked at first makes no difference.
proof fn lemma_edges_exchanged(cells: Seq<Option<Side>>, n: Neighbourhood, side: Side)
    ensures
        corner_credit(cells, edges_exchanged(n), side) == corner_credit(cells, n, side),
{
}

/// The corner that a left-to-right mirror shows in the place of corner `k`.
pub open spec fn partner(k: int) -> int {
    if k == 0 {
        1
    } else if k == 1 {
        0
    } else if k == 2 {
        3
    } else {
        2
    }
}

proof fn lemma_mirrored_corner_credit(cells: Seq<Option<Side>>, k: int, side: Side)
    requires
        cells.len() == NUM_CELLS,
        0 <= k < 4,
    ensures
        corner_credit(mirrored(cells), neighbourhood(k), side) == corner_credit(
            cells,
            neighbourhood(partner(k)),
            opponent(side),
        ),
{
    let n = neighbourhood(k);
    lemma_mirrored_corner(cells, n, side);
    if k < 2 {
        assert(reflected_neighbourhood(n) == edges_exchanged(neighbourhood(partner(k))));
        lemma_edges_exchanged(cells, neighbourhood(partner(k)), opponent(side));
    } else {
        assert(reflected_neighbourhood(n) == neighbourhood(partner(k)));
    }
}

/// Mirroring a board left to right and exchanging the sides exchanges the
/// two totals.
pub proof fn lemma_mirror_exchanges_totals(cells: Seq<Option<Side>>, side: Side)
    requires
        cells.len() == NUM_CELLS,
    ensures
        total(mirrored(cells), side) == total(cells, opponent(side)),
{
    reveal_with_fuel(credit_upto, 5);
    lemma_mirrored_corner_credit(cells, 0, side);
    lemma_mirrored_corner_credit(cells, 1, side);
    lemma_mirrored_corner_credit(cells, 2, side);
    lemma_mirrored_corner_credit(cells, 3, side);
}

/// Mirroring a board left to right and exchanging the sides gives an
/// estimate of the same magnitude and the opposite sign.
pub proof fn lemma_estimate_antisymmetric(cells: Seq<Option<Side>>)
    requires
        cells.len() == NUM_CELLS,
    ensures
        estimate(mirrored(cells)).num == -estimate(cells).num,
        estimate(mirrored(cells)).den == estimate(cells).den,
{
    lemma_mirror_exchanges_totals(cells, Side::Light);
    lemma_mirror_exchanges_totals(cells, Side::Dark);
    lemma_estimate_range(cells);
    lemma_estimate_range(mirrored(cells));
}

/// The cells around corner `k`.
fn corner_cells(k: usize) -> (n: Neighbourhood)
    requires
        k < 4,
    ensures
        n == neighbourhood(k as int),
{
    if k == 0 {
        Neighbourhood {
            corner: Coord::new(0, 0),
            odd: Coord::new(0, 1),
            odd_corner: Coord::new(1, 1),
            even: Coord::new(0, 2),
            even_corner: Coord::new(2, 2),
            counter_odd: Coord::new(1, 0),
            counter_even: Coord::new(2, 0),
        }
    } else if k == 1 {
        Neighbourhood {
            corner: Coord::new(0, 7),
            odd: Coord::new(1, 7),
            odd_corner: Coord::new(1, 6),
            even: Coord::new(2, 7),
            even_corner: Coord::new(2, 5),
            counter_odd: Coord::new(0, 6),
            counter_even: Coord::new(0, 5),
        }
    } else if k == 2 {
        Neighbourhood {
            corner: Coord::new(7, 0),
            odd: Coord::new(6, 0),
            odd_corner: Coord::new(6, 1),
            even: Coord::new(5, 0),
            even_corner: Coord::new(5, 2),
            counter_odd: Coord::new(7, 1),
            counter_even: Coord::new(7, 2),
        }
    } else {
        Neighbourhood {
            corner: Coord::new(7, 7),
            odd: Coord::new(6, 7),
            odd_corner: Coord::new(6, 6),
            even: Coord::new(5, 7),
            even_corner: Coord::new(5, 5),
            counter_odd: Coord::new(7, 6),
            counter_even: Coord::new(7, 5),
        }
    }
}

/// What Light and Dark gain from the cells `near` and `far`; a cell off the
/// board is an error.
fn pair_gain(board: &Board, near: Coord, far: Coord, malus: u16, bonus: u16) -> (r: Result<
    (u16, u16),
    SearchError,
>)
    ensures
        near.on_board() && far.on_board() ==> r == Ok::<(u16, u16), SearchError>(
            (
                pair_credit(board@, near, far, malus as int, bonus as int, Side::Light) as u16,
                pair_credit(board@, near, far, malus as int, bonus as int, Side::Dark) as u16,
            ),
        ),
        !near.on_board() ==> r == Err::<(u16, u16), SearchError>(SearchError::OutOfBounds),
{
    if let Some(owner) = board.get_cell(near)? {
        match owner {
            Side::Light => Ok((0, malus)),
            Side::Dark => Ok((malus, 0)),
        }
    } else if let Some(owner) = board.get_cell(far)? {
        match owner {
            Side::Light => Ok((bonus, 0)),
            Side::Dark => Ok((0, bonus)),
        }
    } else {
        Ok((0, 0))
    }
}

/// Estimates a running game from its board: a fraction strictly between -1
/// and 1, positive where Light is ahead.
///
/// Every cell it looks at lies on the board, so the lookup never fails and
/// the estimate is always delivered.
pub fn heavy_eval(board: &Board) -> (r: Result<Ratio, SearchError>)
    ensures
        r == Ok::<Ratio, SearchError>(estimate(board@)),
        estimate(board@).wf(),
        -estimate(board@).den < estimate(board@).num < estimate(board@).den,
{
    let mut score_light: u16 = 1;
    let mut score_dark: u16 = 1;
    let mut k: usize = 0;
    while k < 4
        invariant
            k <= 4,
            score_light == 1 + credit_upto(board@, Side::Light, k as nat),
            score_dark == 1 + credit_upto(board@, Side::Dark, k as nat),
            score_light <= 1 + CORNER_BONUS * k,
            score_dark <= 1 + CORNER_BONUS * k,
        decreases 4 - k,
    {
        let n = corner_cells(k);
        proof {
            lemma_corner_credit_bounds(board@, n, Side::Light);
            lemma_corner_credit_bounds(board@, n, Side::Dark);
        }
        if let Some(owner) = board.get_cell(n.corner)? {
            match owner {
                Side::Light => {
                    score_light += CORNER_BONUS;
                },
                Side::Dark => {
                    score_dark += CORNER_BONUS;
                },
            }
        } else {
            let edge = pair_gain(board, n.odd, n.even, ODD_MALUS, EVEN_BONUS)?;
            let counter = pair_gain(board, n.counter_odd, n.counter_even, ODD_MALUS, EVEN_BONUS)?;
            let diagonal = pair_gain(
                board,
                n.odd_corner,
                n.even_corner,
                ODD_CORNER_MALUS,
                EVEN_CORNER_BONUS,
            )?;
            score_light += edge.0 + counter.0 + diagonal.0;
            score_dark += edge.1 + counter.1 + diagonal.1;
        }
        k += 1;
    }
    proof {
        lemma_estimate_range(board@);
    }
    Ok(
        Ratio {
            num: score_light as i64 - score_dark as i64,
            den: score_light as i64 + score_dark as i64,
        },
    )
}

} // verus!
