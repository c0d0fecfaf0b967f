//! The search: how a budget of evaluations is spent below a position, and
//! what score comes back.

use crate::rusthello::board::SearchError;
use crate::rusthello::heuristic::estimate;
use crate::rusthello::position::Position;
use crate::rusthello::score::{lemma_order_is_total, lemma_order_is_transitive, Score, Side};
use vstd::prelude::*;

verus! {

/// How far a search has come.
#[derive(Debug)]
pub enum Progress {
    /// The score of the position, and what is left of the budget.
    Settled(Score, u32),
    /// The search reached a position that is still `Unexplored`. The path
    /// leads to it from the position searched: each entry is the number of
    /// a move among the legal moves of the position before it.
    Needs(Vec<usize>),
}

/// What a search comes to, in specifications.
pub enum Outcome {
    /// The score of the position, and what is left of the budget.
    Settled(Score, int),
    /// The path to the first position that the search misses.
    Needs(Seq<usize>),
    /// The search cannot be made.
    Failed(SearchError),
}

/// The outcome that a result of the search stands for.
pub open spec fn outcome_of(r: Result<Progress, SearchError>) -> Outcome {
    match r {
        Ok(Progress::Settled(score, leftover)) => Outcome::Settled(score, leftover as int),
        Ok(Progress::Needs(path)) => Outcome::Needs(path@),
        Err(e) => Outcome::Failed(e),
    }
}

/// `first` is strictly better than `second` for `side`: `side` prefers
/// `first`, and does not prefer `second` the other way round.
pub open spec fn strictly_better_for(first: Score, second: Score, side: Side) -> bool {
    Score::better_for(first, second, side) && !Score::better_for(second, first, side)
}

/// Being strictly better for a side carries over: what is strictly better
/// than something that is strictly better than a third score is strictly
/// better than the third.
pub proof fn lemma_strictly_better_is_transitive(a: Score, b: Score, c: Score, side: Side)
    requires
        a.wf(),
        b.wf(),
        c.wf(),
        strictly_better_for(a, b, side),
        strictly_better_for(b, c, side),
    ensures
        strictly_better_for(a, c, side),
{
    lemma_order_is_total(a, b);
    lemma_order_is_total(b, c);
    lemma_order_is_total(a, c);
    match side {
        Side::Light => {
            lemma_order_is_transitive(a, b, c);
        },
        Side::Dark => {
            lemma_order_is_transitive(c, b, a);
        },
    }
}

/// The better for `side` of the best score so far and a new one; the one
/// found first stays where neither is strictly better.
pub open spec fn keep(best: Option<Score>, score: Score, side: Side) -> Score {
    match best {
        None => score,
        Some(b) => if strictly_better_for(score, b, side) {
            score
        } else {
            b
        },
    }
}

/// What a position with `count` candidates has left after setting one unit
/// aside for each of them.
pub open spec fn after_charge(comps: int, count: int) -> int {
    if comps >= count {
        comps - count
    } else {
        0
    }
}

/// What one of `n` candidates gets of `leftover` units: an equal share,
/// rounded down.
pub open spec fn share(leftover: int, n: int) -> int {
    leftover / n
}

/// `outcome` as seen from one move earlier, where the move made was number
/// `index`.
pub open spec fn through(index: int, outcome: Outcome) -> Outcome {
    match outcome {
        Outcome::Needs(path) => Outcome::Needs(seq![index as usize] + path),
        other => other,
    }
}

/// The search of `p` with a budget of `comps` units.
///
/// A finished game has its result and costs nothing. A forced move is made
/// at no cost, and the search goes on after it with the whole budget. With
/// two or more candidates one unit is set aside for each, and the rest is
/// spent on them in turn by `sweep`.
pub open spec fn search(p: Position, comps: int) -> Outcome
    decreases p, usize::MAX + 1,
{
    match p {
        Position::Unexplored => Outcome::Needs(seq![]),
        Position::Ended { score_diff } => Outcome::Settled(Score::Ended(score_diff), comps),
        Position::Open { side, board, moves } => if moves.len() == 0 {
            Outcome::Failed(SearchError::NoLegalMoves)
        } else if moves.len() == 1 {
            through(0, search(moves[0].after, comps))
        } else {
            sweep(p, moves.len() as int, after_charge(comps, moves.len() as int), None)
        },
    }
}

/// The search of the first `n` candidates of the running game `p`, last one
/// first, with `leftover` units at hand and `best` the best score of the
/// candidates already done.
///
/// A candidate that ends the game has the game's result. While fewer units
/// are left than candidates, a candidate has the estimate of its board.
/// Otherwise it is searched with an equal share of what is left, rounded
/// down, and what it does not spend is at hand for those after it.
pub open spec fn sweep(p: Position, n: int, leftover: int, best: Option<Score>) -> Outcome
    decreases p, n,
{
    if p is Open && 0 < n <= p->moves.len() {
        let side = p->side;
        let child = p->moves[n - 1].after;
        match child {
            Position::Unexplored => Outcome::Needs(seq![(n - 1) as usize]),
            Position::Ended { score_diff } => sweep(
                p,
                n - 1,
                leftover,
                Some(keep(best, Score::Ended(score_diff), side)),
            ),
            Position::Open { board, .. } => if leftover < n {
                sweep(p, n - 1, leftover, Some(keep(best, Score::Running(estimate(board@)), side)))
            } else {
                let grant = share(leftover, n);
                match search(child, grant) {
                    Outcome::Settled(score, back) => sweep(
                        p,
                        n - 1,
                        leftover - grant + back,
                        Some(keep(best, score, side)),
                    ),
                    other => through(n - 1, other),
                }
            },
        }
    } else {
        match best {
            Some(score) => Outcome::Settled(score, leftover),
            None => Outcome::Failed(SearchError::NoLegalMoves),
        }
    }
}

/// A share is never more than what is shared, and at least one unit where
/// there is a unit for each candidate.
pub proof fn lemma_share_bounds(leftover: int, n: int)
    requires
        n >= 1,
        leftover >= 0,
    ensures
        0 <= share(leftover, n) <= leftover,
        leftover >= n ==> share(leftover, n) >= 1,
{
    assert(0 <= leftover / n <= leftover && (leftover >= n ==> leftover / n >= 1))
        by (nonlinear_arith)
        requires
            n >= 1,
            leftover >= 0,
    ;
}

/// The budget is conserved: a search never hands back more units than it
/// was given, nor fewer than none. What it was given and did not hand back
/// is what was spent below the position, so no more is spent there than
/// the budget.
pub proof fn lemma_search_conserves_budget(p: Position, comps: int)
    requires
        comps >= 0,
    ensures
        search(p, comps) matches Outcome::Settled(_, leftover) ==> 0 <= leftover <= comps,
    decreases p, usize::MAX + 1,
{
    match p {
        Position::Open { side, board, moves } => {
            if moves.len() == 1 {
                lemma_search_conserves_budget(moves[0].after, comps);
            } else if moves.len() >= 2 {
                lemma_sweep_conserves_budget(
                    p,
                    moves.len() as int,
                    after_charge(comps, moves.len() as int),
                    None,
                );
            }
        },
        _ => {},
    }
}

/// The candidates of a position together never hand back more units than
/// were at hand for them, nor fewer than none.
pub proof fn lemma_sweep_conserves_budget(
    p: Position,
    n: int,
    leftover: int,
    best: Option<Score>,
)
    requires
        leftover >= 0,
    ensures
        sweep(p, n, leftover, best) matches Outcome::Settled(_, back) ==> 0 <= back <= leftover,
    decreases p, n,
{
    if p is Open && 0 < n <= p->moves.len() {
        let side = p->side;
        let child = p->moves[n - 1].after;
        match child {
            Position::Unexplored => {},
            Position::Ended { score_diff } => {
                lemma_sweep_conserves_budget(
                    p,
                    n - 1,
                    leftover,
                    Some(keep(best, Score::Ended(score_diff), side)),
                );
            },
            Position::Open { board, .. } => {
                if leftover < n {
                    lemma_sweep_conserves_budget(
                        p,
                        n - 1,
                        leftover,
                        Some(keep(best, Score::Running(estimate(board@)), side)),
                    );
                } else {
                    let grant = share(leftover, n);
                    lemma_share_bounds(leftover, n);
                    lemma_search_conserves_budget(child, grant);
                    match search(child, grant) {
                        Outcome::Settled(score, back) => {
                            lemma_sweep_conserves_budget(
                                p,
                                n - 1,
                                leftover - grant + back,
                                Some(keep(best, score, side)),
                            );
                        },
                        _ => {},
                    }
                }
            },
        }
    }
}

/// A running game with exactly one legal move.
pub open spec fn forced(p: Position) -> bool {
    p is Open && p->moves.len() == 1
}

/// Whether `m` moves in a row are forced from `p` on.
pub open spec fn forced_chain(p: Position, m: nat) -> bool
    decreases m,
{
    m == 0 || (forced(p) && forced_chain(p->moves[0].after, (m - 1) as nat))
}

/// The position after the first `m` forced moves from `p` on.
pub open spec fn after_forced(p: Position, m: nat) -> Position
    decreases m,
{
    if m == 0 || !forced(p) {
        p
    } else {
        after_forced(p->moves[0].after, (m - 1) as nat)
    }
}

/// A forced move costs nothing: the search of a position with one legal
/// move is the search of the position after it with the same budget.
pub proof fn lemma_forced_move_is_free(p: Position, comps: int)
    requires
        forced(p),
    ensures
        search(p, comps) == through(0, search(p->moves[0].after, comps)),
        search(p->moves[0].after, comps) is Settled ==> search(p, comps) == search(
            p->moves[0].after,
            comps,
        ),
{
}

/// A chain of forced moves costs nothing, however long it is and whatever
/// the budget: where the search of the position after the chain gives a
/// score, the search of the position before it gives the same score and
/// has the same units left.
pub proof fn lemma_forced_chain_is_free(p: Position, m: nat, comps: int)
    requires
        forced_chain(p, m),
        search(after_forced(p, m), comps) is Settled,
    ensures
        search(p, comps) == search(after_forced(p, m), comps),
    decreases m,
{
    if m > 0 {
        lemma_forced_chain_is_free(p->moves[0].after, (m - 1) as nat, comps);
    }
}

/// A chain of forced moves that ends the game gives the game's result and
/// leaves the whole budget.
pub proof fn lemma_forced_chain_to_the_end(p: Position, m: nat, comps: int)
    requires
        forced_chain(p, m),
        after_forced(p, m) is Ended,
    ensures
        search(p, comps) == Outcome::Settled(
            Score::Ended(after_forced(p, m)->score_diff),
            comps,
        ),
{
    lemma_forced_chain_is_free(p, m, comps);
}

/// Whether every legal move of the running game `p` ends the game.
pub open spec fn all_candidates_ended(p: Position) -> bool {
    p is Open && forall|i: int| 0 <= i < p->moves.len() ==> (#[trigger] p->moves[i]).after is Ended
}

/// The final differential of the game that move `i` of `p` ends.
pub open spec fn result_after(p: Position, i: int) -> int {
    p->moves[i].after->score_diff as int
}

/// Whether `d` is at least as good for `side` as `other`: not less for
/// Light, not greater for Dark.
pub open spec fn suits(side: Side, d: int, other: int) -> bool {
    match side {
        Side::Light => d >= other,
        Side::Dark => d <= other,
    }
}

proof fn lemma_sweep_of_ended(p: Position, n: int, leftover: int, best: Option<Score>)
    requires
        all_candidates_ended(p),
        0 <= n <= p->moves.len(),
        best matches Some(score) ==> score is Ended,
        n == 0 ==> best is Some,
    ensures
        sweep(p, n, leftover, best) matches Outcome::Settled(Score::Ended(d), back) && back
            == leftover && (best == Some(Score::Ended(d)) || exists|i: int|
            0 <= i < n && #[trigger] result_after(p, i) == d) && (forall|i: int|
            0 <= i < n ==> suits(p->side, d as int, #[trigger] result_after(p, i))) && (
        best matches Some(Score::Ended(b)) ==> suits(p->side, d as int, b as int)),
    decreases n,
{
    if n > 0 {
        let side = p->side;
        let branch = p->moves[n - 1];
        let last = Score::Ended(branch.after->score_diff);
        let kept = keep(best, last, side);
        lemma_sweep_of_ended(p, n - 1, leftover, Some(kept));
        let d = sweep(p, n, leftover, best)->Settled_0->Ended_0;
        assert(kept == last ==> result_after(p, n - 1) == kept->Ended_0);
        assert(suits(side, kept->Ended_0 as int, result_after(p, n - 1)));
    }
}

/// Where every legal move ends the game, the search gives an exact result
/// and estimates nothing: the score is the final differential after one of
/// the moves, none of the others being better for the side to move, and
/// only the units set aside for the candidates are spent.
pub proof fn lemma_all_candidates_ended(p: Position, comps: int)
    requires
        all_candidates_ended(p),
        p->moves.len() >= 2,
    ensures
        search(p, comps) matches Outcome::Settled(Score::Ended(d), leftover) && leftover
            == after_charge(comps, p->moves.len() as int) && (exists|i: int|
            0 <= i < p->moves.len() && #[trigger] result_after(p, i) == d) && (forall|i: int|
            0 <= i < p->moves.len() ==> suits(p->side, d as int, #[trigger] result_after(p, i))),
{
    lemma_sweep_of_ended(
        p,
        p->moves.len() as int,
        after_charge(comps, p->moves.len() as int),
        None,
    );
}

/// A path that leads somewhere from the position after move `index`, with
/// that move put before it, leads to the same position from `p`.
pub proof fn lemma_path_through(p: Position, index: int, path: Seq<usize>)
    requires
        p is Open,
        0 <= index < p->moves.len(),
        p->moves[index].after.reaches(path),
    ensures
        p.reaches(seq![index as usize] + path),
        p.at(seq![index as usize] + path) == p->moves[index].after.at(path),
{
    let longer = seq![index as usize] + path;
    assert(longer[0] == index as usize);
    assert(longer.skip(1) =~= path);
}

/// What a search asks for is there to be explored: the path leads from the
/// position searched to a position that is `Unexplored`.
pub proof fn lemma_search_needs_unexplored(p: Position, comps: int)
    ensures
        search(p, comps) matches Outcome::Needs(path) ==> p.reaches(path) && p.at(path)
            is Unexplored,
    decreases p, usize::MAX + 1,
{
    match p {
        Position::Open { side, board, moves } => {
            if moves.len() == 1 {
                lemma_search_needs_unexplored(moves[0].after, comps);
                if let Outcome::Needs(path) = search(moves[0].after, comps) {
                    lemma_path_through(p, 0, path);
                }
            } else if moves.len() >= 2 {
                lemma_sweep_needs_unexplored(
                    p,
                    moves.len() as int,
                    after_charge(comps, moves.len() as int),
                    None,
                );
            }
        },
        _ => {},
    }
}

/// What the search of the candidates of a position asks for is there to be
/// explored.
pub proof fn lemma_sweep_needs_unexplored(
    p: Position,
    n: int,
    leftover: int,
    best: Option<Score>,
)
    ensures
        sweep(p, n, leftover, best) matches Outcome::Needs(path) ==> p.reaches(path) && p.at(
            path,
        ) is Unexplored,
    decreases p, n,
{
    if p is Open && 0 < n <= p->moves.len() {
        let side = p->side;
        let child = p->moves[n - 1].after;
        match child {
            Position::Unexplored => {
                lemma_path_through(p, n - 1, seq![]);
                assert(seq![(n - 1) as usize] + Seq::<usize>::empty() =~= seq![(n - 1) as usize]);
            },
            Position::Ended { score_diff } => {
                lemma_sweep_needs_unexplored(
                    p,
                    n - 1,
                    leftover,
                    Some(keep(best, Score::Ended(score_diff), side)),
                );
            },
            Position::Open { board, .. } => {
                if leftover < n {
                    lemma_sweep_needs_unexplored(
                        p,
                        n - 1,
                        leftover,
                        Some(keep(best, Score::Running(estimate(board@)), side)),
                    );
                } else {
                    let grant = share(leftover, n);
                    lemma_search_needs_unexplored(child, grant);
                    match search(child, grant) {
                        Outcome::Settled(score, back) => {
                            lemma_sweep_needs_unexplored(
                                p,
                                n - 1,
                                leftover - grant + back,
                                Some(keep(best, score, side)),
                            );
                        },
                        Outcome::Needs(path) => {
                            lemma_path_through(p, n - 1, path);
                        },
                        _ => {},
                    }
                }
            },
        }
    }
}

/// What was asked for and given is not asked for again: once a position
/// that is explored has been put where a search missed one, the search of
/// the whole does not miss a position at that place any more.
pub proof fn lemma_search_goes_on(
    p: Position,
    after: Position,
    path: Seq<usize>,
    expansion: Position,
    comps: int,
)
    requires
        search(p, comps) == Outcome::Needs(path),
        p.grafted(after, path, expansion),
        !(expansion is Unexplored),
    ensures
        search(after, comps) != Outcome::Needs(path),
{
    lemma_search_needs_unexplored(p, comps);
    p.lemma_grafted_at(after, path, expansion);
    lemma_search_needs_unexplored(after, comps);
}

} // verus!
