//! Positions of a game, each with as much of the game below it as has been
//! looked at so far.

use crate::rusthello::board::{Board, Coord, SearchError};
use crate::rusthello::score::Side;
use vstd::prelude::*;

verus! {

/// A position and what is known of the positions that follow it.
///
/// The rules of the game are not part of this library. Whoever knows them
/// describes a position by its board, the side to move and the legal moves,
/// and may leave the position after a move `Unexplored` until a search asks
/// for it.
#[derive(Debug)]
pub enum Position {
    /// A position that has not been described yet.
    Unexplored,
    /// A finished game with its final differential, Light minus Dark.
    Ended { score_diff: i16 },
    /// A running game: the side to move, the board, and the legal moves in
    /// the order in which they were found.
    Open { side: Side, board: Board, moves: Vec<Branch> },
}

/// A legal move and the position it leads to.
#[derive(Debug)]
pub struct Branch {
    pub coord: Coord,
    pub after: Position,
}

impl Position {
    /// Whether the position is a finished game.
    pub fn is_endgame(&self) -> (b: bool)
        ensures
            b == (*self is Ended),
    {
        match self {
            Position::Ended { .. } => true,
            _ => false,
        }
    }

    /// Whether `path` leads from `self` to a position: each entry is the
    /// number of a legal move of the running game reached before it.
    pub open spec fn reaches(self, path: Seq<usize>) -> bool
        decreases path.len(),
    {
        path.len() == 0 || (self is Open && path[0] < self->moves.len()
            && self->moves[path[0] as int].after.reaches(path.skip(1)))
    }

    /// The position that `path` leads to from `self`.
    pub open spec fn at(self, path: Seq<usize>) -> Position
        recommends
            self.reaches(path),
        decreases path.len(),
    {
        if path.len() == 0 {
            self
        } else {
            self->moves[path[0] as int].after.at(path.skip(1))
        }
    }

    /// Whether `after` is `self` with the position at the end of `path`
    /// replaced by `expansion`, and everything else as it was.
    pub open spec fn grafted(self, after: Position, path: Seq<usize>, expansion: Position) -> bool
        decreases path.len(),
    {
        if path.len() == 0 {
            after == expansion
        } else {
            let at = path[0] as int;
            &&& self is Open
            &&& after is Open
            &&& after->side == self->side
            &&& after->board == self->board
            &&& at < self->moves.len()
            &&& after->moves.len() == self->moves.len()
            &&& forall|j: int|
                0 <= j < self->moves.len() && j != at ==> #[trigger] after->moves[j]
                    == self->moves[j]
            &&& after->moves[at].coord == self->moves[at].coord
            &&& self->moves[at].after.grafted(after->moves[at].after, path.skip(1), expansion)
        }
    }

    /// After a graft the path leads to what was put at its end.
    pub proof fn lemma_grafted_at(self, after: Position, path: Seq<usize>, expansion: Position)
        requires
            self.reaches(path),
            self.grafted(after, path, expansion),
        ensures
            after.reaches(path),
            after.at(path) == expansion,
        decreases path.len(),
    {
        if path.len() > 0 {
            let at = path[0] as int;
            self->moves[at].after.lemma_grafted_at(after->moves[at].after, path.skip(1), expansion);
        }
    }

    /// Whether `path` leads from this position to a position.
    pub fn leads(&self, path: &Vec<usize>) -> (b: bool)
        ensures
            b == self.reaches(path@),
    {
        assert(path@.skip(0) =~= path@);
        self.leads_from(path, 0)
    }

    fn leads_from(&self, path: &Vec<usize>, depth: usize) -> (b: bool)
        requires
            depth <= path.len(),
        ensures
            b == self.reaches(path@.skip(depth as int)),
        decreases path.len() - depth,
    {
        if depth == path.len() {
            return true;
        }
        let at = path[depth];
        assert(path@.skip(depth as int)[0] == at);
        assert(path@.skip(depth as int).skip(1) =~= path@.skip(depth as int + 1));
        match self {
            Position::Open { moves, .. } => at < moves.len() && moves[at].after.leads_from(
                path,
                depth + 1,
            ),
            _ => false,
        }
    }

    /// Puts `expansion` in the place of the position that `path` leads to.
    ///
    /// Where `path` leads to no position, nothing changes and the answer is
    /// `IllegalMove`.
    pub fn graft(&mut self, path: &Vec<usize>, expansion: Position) -> (r: Result<
        (),
        SearchError,
    >)
        ensures
            old(self).reaches(path@) ==> r is Ok && old(self).grafted(
                *final(self),
                path@,
                expansion,
            ),
            !old(self).reaches(path@) ==> r == Err::<(), SearchError>(SearchError::IllegalMove)
                && *final(self) == *old(self),
    {
        if !self.leads(path) {
            return Err(SearchError::IllegalMove);
        }
        assert(path@.skip(0) =~= path@);
        self.graft_from(path, 0, expansion);
        Ok(())
    }

    fn graft_from(&mut self, path: &Vec<usize>, depth: usize, expansion: Position)
        requires
            depth <= path.len(),
            old(self).reaches(path@.skip(depth as int)),
        ensures
            old(self).grafted(*final(self), path@.skip(depth as int), expansion),
        decreases path.len() - depth,
    {
        if depth == path.len() {
            *self = expansion;
            return ;
        }
        let at = path[depth];
        assert(path@.skip(depth as int)[0] == at);
        assert(path@.skip(depth as int).skip(1) =~= path@.skip(depth as int + 1));
        match self {
            Position::Open { moves, .. } => {
                if at < moves.len() {
                    moves[at].after.graft_from(path, depth + 1, expansion);
                }
            },
            _ => {},
        }
    }

    /// The side to move, if the position is a running game.
    pub fn get_state(&self) -> (s: Option<Side>)
        ensures
            s == (match *self {
                Position::Open { side, .. } => Some(side),
                _ => None,
            }),
    {
        match self {
            Position::Open { side, .. } => Some(*side),
            _ => None,
        }
    }
}

} // verus!
