//! The automated player: it searches the positions after each of its moves
//! and plays the move with the best score.

use crate::rusthello::board::{Coord, SearchError};
use crate::rusthello::heuristic::{heavy_eval, lemma_estimate_range};
use crate::rusthello::jitter::{
    apply_jitter, draw_jitter, drawn_jitter, jitter_in_range, jittered,
};
use crate::rusthello::position::Position;
use crate::rusthello::score::{
    lemma_above_what_is_not_above, lemma_below_what_is_not_below, lemma_order_is_total, Score,
    Side,
};
use crate::rusthello::search::{
    keep, lemma_path_through, lemma_search_needs_unexplored,
    lemma_strictly_better_is_transitive, outcome_of, search, strictly_better_for, sweep, through,
    Outcome, Progress,
};
use vstd::prelude::*;

verus! {

/// Budget of the weak player.
pub const WEAK: u32 = 100;

/// Budget of the medium player.
pub const MEDIUM: u32 = 1000;

/// Budget of the strong player.
pub const STRONG: u32 = 10000;

/// An automated player, by the budget it searches with.
#[derive(Clone, Copy, Debug, PartialEq, Eq, Structural)]
pub enum AiPlayer {
    Weak,
    Medium,
    Strong,
}

/// How far the choice of a move has come.
#[derive(Debug)]
pub enum Choice {
    /// The move to play.
    Move(Coord),
    /// The path to a position that the choice waits for, laid out like the
    /// path of `Progress::Needs`.
    Needs(Vec<usize>),
}

/// What the choice of a move comes to, in specifications.
pub enum Selection {
    /// The move to play.
    Move(Coord),
    /// The path to the first position that the choice misses.
    Needs(Seq<usize>),
    /// No move can be chosen.
    Failed(SearchError),
}

/// The selection that a result of the choice stands for.
pub open spec fn selection_of(r: Result<Choice, SearchError>) -> Selection {
    match r {
        Ok(Choice::Move(coord)) => Selection::Move(coord),
        Ok(Choice::Needs(path)) => Selection::Needs(path@),
        Err(e) => Selection::Failed(e),
    }
}

/// The evaluation of the position after a candidate move: the search of it,
/// with `jitter` applied to the score where that is an estimate.
pub open spec fn evaluation(p: Position, comps: int, jitter: int) -> Outcome {
    match search(p, comps) {
        Outcome::Settled(score, leftover) => Outcome::Settled(jittered(score, jitter), leftover),
        other => other,
    }
}

/// Whether every entry of `jitter` is one that a player may apply.
pub open spec fn jitters_in_range(jitter: Seq<i32>) -> bool {
    forall|i: int| 0 <= i < jitter.len() ==> jitter_in_range(#[trigger] jitter[i] as int)
}

/// The jitters that are drawn for the candidates of `p`, one for each: the
/// generator is made anew for every draw, so each is `drawn_jitter()`.
pub open spec fn drawn_jitters(p: Position) -> Seq<i32> {
    Seq::new(
        if p is Open {
            p->moves.len() as nat
        } else {
            0
        },
        |i: int| drawn_jitter(),
    )
}

/// The jitter of candidate `i`: entry `i` of `jitter`, and none where
/// `jitter` has no such entry.
pub open spec fn jitter_at(jitter: Seq<i32>, i: int) -> int {
    if 0 <= i < jitter.len() {
        jitter[i] as int
    } else {
        0
    }
}

/// The winner among the first `n` of `scores` for `side`: the first of them
/// that none of the others is strictly better than.
pub open spec fn winner(scores: Seq<Score>, side: Side, n: int) -> int
    decreases n,
{
    if n <= 1 {
        0
    } else {
        let w = winner(scores, side, n - 1);
        if strictly_better_for(scores[n - 1], scores[w], side) {
            n - 1
        } else {
            w
        }
    }
}

/// The evaluation of candidate `i` of the running game `p`, each candidate
/// having `share` units.
pub open spec fn candidate(p: Position, share: int, jitter: Seq<i32>, i: int) -> Outcome {
    evaluation(p->moves[i].after, share, jitter_at(jitter, i))
}

/// The first candidate from `i` on whose evaluation does not give a score,
/// or the number of candidates if there is none.
pub open spec fn first_unsettled(p: Position, share: int, jitter: Seq<i32>, i: int) -> int
    decreases p->moves.len() - i,
{
    if p is Open && 0 <= i < p->moves.len() {
        if candidate(p, share, jitter, i) is Settled {
            first_unsettled(p, share, jitter, i + 1)
        } else {
            i
        }
    } else {
        i
    }
}

/// The scores of the candidates of `p`, in the order of its moves.
pub open spec fn candidate_scores(p: Position, share: int, jitter: Seq<i32>) -> Seq<Score> {
    Seq::new(p->moves.len() as nat, |i: int| candidate(p, share, jitter, i)->Settled_0)
}

/// The choice of a move in `p` with a budget of `comps` units.
///
/// A finished game and a running game without a legal move have no move to
/// choose. A single legal move is chosen without a search. Otherwise every
/// candidate is evaluated with an equal share of the budget, rounded down.
/// If the evaluation of one of them does not give a score, what the first
/// such evaluation gives instead is the outcome. Else the move is chosen
/// whose score is the best for the side to move, the first of them where
/// several are equally good.
pub open spec fn select(p: Position, comps: int, jitter: Seq<i32>) -> Selection {
    match p {
        Position::Unexplored => Selection::Needs(seq![]),
        Position::Ended { .. } => Selection::Failed(SearchError::NoLegalMoves),
        Position::Open { side, board, moves } => if moves.len() == 0 {
            Selection::Failed(SearchError::NoLegalMoves)
        } else if moves.len() == 1 {
            Selection::Move(moves[0].coord)
        } else {
            let share = comps / (moves.len() as int);
            let stop = first_unsettled(p, share, jitter, 0);
            if stop < moves.len() {
                // by the choice of `stop`, this candidate has no score
                match through(stop, candidate(p, share, jitter, stop)) {
                    Outcome::Needs(path) => Selection::Needs(path),
                    Outcome::Failed(e) => Selection::Failed(e),
                    Outcome::Settled(..) => Selection::Failed(SearchError::TaskFailure),
                }
            } else {
                Selection::Move(
                    moves[winner(
                        candidate_scores(p, share, jitter),
                        side,
                        moves.len() as int,
                    )].coord,
                )
            }
        },
    }
}

/// The better for `side` of the best score so far and a new one.
fn keep_best(best: Option<Score>, score: Score, side: Side) -> (kept: Score)
    ensures
        kept == keep(best, score, side),
{
    match best {
        None => score,
        Some(b) => if Score::is_better_for(score, b, side) && !Score::is_better_for(
            b,
            score,
            side,
        ) {
            score
        } else {
            b
        },
    }
}

impl AiPlayer {
    /// Searches `position` with a budget of `comps` units.
    ///
    /// The result is that of `search`: the score and the units not spent,
    /// or the path to the first position that has to be explored before the
    /// search can be made, or `NoLegalMoves` where a running game offers no
    /// move. Never are more units left than were given, and an estimate that
    /// comes back is modest.
    pub fn ai_eval_with_leftover(position: &Position, comps: u32) -> (r: Result<
        Progress,
        SearchError,
    >)
        ensures
            outcome_of(r) == search(*position, comps as int),
            r matches Ok(Progress::Settled(score, leftover)) ==> leftover <= comps
                && score.modest(),
        decreases position,
    {
        match position {
            Position::Unexplored => Ok(Progress::Needs(Vec::new())),
            Position::Ended { score_diff } => Ok(
                Progress::Settled(Score::Ended(*score_diff), comps),
            ),
            Position::Open { side, board, moves } => {
                let count = moves.len();
                if count == 0 {
                    return Err(SearchError::NoLegalMoves);
                }
                if count == 1 {
                    return match AiPlayer::ai_eval_with_leftover(&moves[0].after, comps) {
                        Ok(Progress::Needs(mut path)) => {
                            let ghost below = path@;
                            path.insert(0, 0);
                            assert(path@ =~= seq![0usize] + below);
                            Ok(Progress::Needs(path))
                        },
                        other => other,
                    };
                }
                let mut leftover: u32 = if comps as usize >= count {
                    comps - count as u32
                } else {
                    0
                };
                let mut best: Option<Score> = None;
                let mut n: usize = count;
                while n > 0
                    invariant
                        *position == (Position::Open { side: *side, board: *board, moves: *moves }),
                        count == moves.len(),
                        count >= 2,
                        n <= count,
                        leftover <= comps,
                        n < count ==> best is Some,
                        best matches Some(score) ==> score.modest(),
                        sweep(*position, n as int, leftover as int, best) == search(
                            *position,
                            comps as int,
                        ),
                    decreases n,
                {
                    let child = &moves[n - 1].after;
                    let score = match child {
                        Position::Unexplored => {
                            let mut path = Vec::new();
                            path.push(n - 1);
                            assert(path@ =~= seq![(n - 1) as usize]);
                            return Ok(Progress::Needs(path));
                        },
                        Position::Ended { score_diff } => Score::Ended(*score_diff),
                        Position::Open { board: after, .. } => {
                            if (leftover as usize) < n {
                                proof {
                                    lemma_estimate_range(after@);
                                }
                                Score::Running(heavy_eval(after)?)
                            } else {
                                let grant = leftover / (n as u32);
                                match AiPlayer::ai_eval_with_leftover(child, grant)? {
                                    Progress::Settled(score, back) => {
                                        leftover = leftover - grant + back;
                                        score
                                    },
                                    Progress::Needs(mut path) => {
                                        let ghost below = path@;
                                        path.insert(0, n - 1);
                                        assert(path@ =~= seq![(n - 1) as usize] + below);
                                        return Ok(Progress::Needs(path));
                                    },
                                }
                            }
                        },
                    };
                    best = Some(keep_best(best, score, *side));
                    n -= 1;
                }
                match best {
                    Some(score) => Ok(Progress::Settled(score, leftover)),
                    None => Err(SearchError::NoLegalMoves),
                }
            },
        }
    }

    /// Evaluates the position after a candidate move with a budget of
    /// `comps` units and the given jitter.
    pub fn ai_eval_with_jitter(position: &Position, comps: u32, jitter: i32) -> (r: Result<
        Progress,
        SearchError,
    >)
        requires
            jitter_in_range(jitter as int),
        ensures
            outcome_of(r) == evaluation(*position, comps as int, jitter as int),
            r matches Ok(Progress::Settled(score, leftover)) ==> leftover <= comps && score.wf(),
    {
        match AiPlayer::ai_eval_with_leftover(position, comps)? {
            Progress::Settled(score, leftover) => Ok(
                Progress::Settled(apply_jitter(score, jitter), leftover),
            ),
            Progress::Needs(path) => Ok(Progress::Needs(path)),
        }
    }

    /// Evaluates the position after a candidate move with a budget of
    /// `comps` units, under a jitter drawn for this evaluation.
    ///
    /// The result is the evaluation under the jitter drawn, which is a
    /// jitter in range.
    pub fn ai_eval(position: &Position, comps: u32) -> (r: Result<Progress, SearchError>)
        ensures
            outcome_of(r) == evaluation(*position, comps as int, drawn_jitter() as int),
            exists|jitter: int|
                jitter_in_range(jitter) && #[trigger] evaluation(*position, comps as int, jitter)
                    == outcome_of(r),
            r matches Ok(Progress::Settled(score, leftover)) ==> leftover <= comps && score.wf(),
    {
        let jitter = draw_jitter();
        let r = AiPlayer::ai_eval_with_jitter(position, comps, jitter);
        assert(jitter_in_range(jitter as int) && evaluation(
            *position,
            comps as int,
            jitter as int,
        ) == outcome_of(r));
        r
    }

    /// Takes up again an evaluation that waited for the position at the end
    /// of `path`: `expansion` is put there, and the evaluation is made anew.
    ///
    /// Where `path` leads to no position, nothing changes and the answer is
    /// `IllegalMove`.
    pub fn resume(position: &mut Position, path: &Vec<usize>, expansion: Position, comps: u32) -> (r:
        Result<Progress, SearchError>)
        ensures
            !old(position).reaches(path@) ==> r == Err::<Progress, SearchError>(
                SearchError::IllegalMove,
            ) && *final(position) == *old(position),
            old(position).reaches(path@) ==> outcome_of(r) == evaluation(
                *final(position),
                comps as int,
                drawn_jitter() as int,
            ),
            old(position).reaches(path@) ==> old(position).grafted(
                *final(position),
                path@,
                expansion,
            ) && exists|jitter: int|
                jitter_in_range(jitter) && #[trigger] evaluation(
                    *final(position),
                    comps as int,
                    jitter,
                ) == outcome_of(r),
    {
        match position.graft(path, expansion) {
            Ok(()) => AiPlayer::ai_eval(position, comps),
            Err(e) => Err(e),
        }
    }

    /// Chooses among `scores` the one that is best for `side`: the number of
    /// the first score that none of the others is strictly better than, or
    /// nothing where there is no score.
    pub fn pick_best(scores: &Vec<Score>, side: Side) -> (r: Option<usize>)
        ensures
            scores.len() == 0 ==> r is None,
            scores.len() > 0 ==> r is Some,
            r matches Some(w) ==> w < scores.len() && w == winner(
                scores@,
                side,
                scores.len() as int,
            ),
    {
        if scores.len() == 0 {
            return None;
        }
        let mut w: usize = 0;
        let mut n: usize = 1;
        while n < scores.len()
            invariant
                1 <= n <= scores.len(),
                w < n,
                w == winner(scores@, side, n as int),
            decreases scores.len() - n,
        {
            if Score::is_better_for(scores[n], scores[w], side) && !Score::is_better_for(
                scores[w],
                scores[n],
                side,
            ) {
                w = n;
            }
            n += 1;
        }
        Some(w)
    }

    /// Chooses a move in `position` with a budget of `comps` units, the
    /// evaluation of candidate `i` being made under `jitter[i]`, or without
    /// jitter where `jitter` is shorter than that.
    pub fn select_move(position: &Position, comps: u32, jitter: &Vec<i32>) -> (r: Result<
        Choice,
        SearchError,
    >)
        requires
            jitters_in_range(jitter@),
        ensures
            selection_of(r) == select(*position, comps as int, jitter@),
    {
        match position {
            Position::Unexplored => Ok(Choice::Needs(Vec::new())),
            Position::Ended { .. } => Err(SearchError::NoLegalMoves),
            Position::Open { side, board, moves } => {
                let count = moves.len();
                if count == 0 {
                    return Err(SearchError::NoLegalMoves);
                }
                if count == 1 {
                    return Ok(Choice::Move(moves[0].coord));
                }
                let share: u32 = if comps as usize >= count {
                    comps / (count as u32)
                } else {
                    proof {
                        vstd::arithmetic::div_mod::lemma_basic_div(comps as int, count as int);
                    }
                    0
                };
                let mut scores: Vec<Score> = Vec::new();
                let mut i: usize = 0;
                while i < count
                    invariant
                        *position == (Position::Open { side: *side, board: *board, moves: *moves }),
                        count == moves.len(),
                        count >= 2,
                        share == (comps as int) / (count as int),
                        i <= count,
                        scores.len() == i,
                        jitters_in_range(jitter@),
                        forall|j: int|
                            0 <= j < i ==> candidate(*position, share as int, jitter@, j)
                                is Settled && #[trigger] scores[j] == candidate(
                                *position,
                                share as int,
                                jitter@,
                                j,
                            )->Settled_0,
                        first_unsettled(*position, share as int, jitter@, i as int)
                            == first_unsettled(*position, share as int, jitter@, 0),
                    decreases count - i,
                {
                    let own: i32 = if i < jitter.len() {
                        jitter[i]
                    } else {
                        0
                    };
                    match AiPlayer::ai_eval_with_jitter(&moves[i].after, share, own) {
                        Ok(Progress::Settled(score, _)) => {
                            scores.push(score);
                        },
                        Ok(Progress::Needs(mut path)) => {
                            let ghost below = path@;
                            path.insert(0, i);
                            assert(path@ =~= seq![i] + below);
                            return Ok(Choice::Needs(path));
                        },
                        Err(e) => {
                            return Err(e);
                        },
                    }
                    i += 1;
                }
                assert(scores@ =~= candidate_scores(*position, share as int, jitter@));
                match AiPlayer::pick_best(&scores, *side) {
                    Some(w) => Ok(Choice::Move(moves[w].coord)),
                    None => Err(SearchError::NoLegalMoves),
                }
            },
        }
    }

    /// Chooses a move in `position` with a budget of `comps` units, drawing
    /// a jitter for the evaluation of each candidate.
    ///
    /// The result is the choice under the jitters drawn, which are jitters
    /// in range, one for each candidate.
    pub fn find_best_move(position: &Position, comps: u32) -> (r: Result<Choice, SearchError>)
        ensures
            selection_of(r) == select(*position, comps as int, drawn_jitters(*position)),
            exists|jitter: Seq<i32>|
                jitters_in_range(jitter) && #[trigger] select(*position, comps as int, jitter)
                    == selection_of(r),
    {
        let count = match position {
            Position::Open { moves, .. } => moves.len(),
            _ => 0,
        };
        let mut jitter: Vec<i32> = Vec::new();
        let mut i: usize = 0;
        while i < count
            invariant
                i <= count,
                jitter.len() == i,
                jitters_in_range(jitter@),
                forall|j: int| 0 <= j < i ==> #[trigger] jitter[j] == drawn_jitter(),
            decreases count - i,
        {
            jitter.push(draw_jitter());
            i += 1;
        }
        assert(jitter@ =~= drawn_jitters(*position));
        let r = AiPlayer::select_move(position, comps, &jitter);
        assert(jitters_in_range(jitter@) && select(*position, comps as int, jitter@)
            == selection_of(r));
        r
    }

    /// The budget that the player searches with.
    pub open spec fn budget(self) -> u32 {
        match self {
            AiPlayer::Weak => WEAK,
            AiPlayer::Medium => MEDIUM,
            AiPlayer::Strong => STRONG,
        }
    }

    /// Chooses the player's move in `position`: `find_best_move` with the
    /// player's budget.
    pub fn make_move(&self, position: &Position) -> (r: Result<Choice, SearchError>)
        ensures
            selection_of(r) == select(
                *position,
                self.budget() as int,
                drawn_jitters(*position),
            ),
            exists|jitter: Seq<i32>|
                jitters_in_range(jitter) && #[trigger] select(
                    *position,
                    self.budget() as int,
                    jitter,
                ) == selection_of(r),
    {
        let r = match *self {
            AiPlayer::Weak => AiPlayer::find_best_move(position, WEAK),
            AiPlayer::Medium => AiPlayer::find_best_move(position, MEDIUM),
            AiPlayer::Strong => AiPlayer::find_best_move(position, STRONG),
        };
        proof {
            let jitter = choose|jitter: Seq<i32>|
                jitters_in_range(jitter) && #[trigger] select(
                    *position,
                    self.budget() as int,
                    jitter,
                ) == selection_of(r);
            assert(jitters_in_range(jitter) && select(*position, self.budget() as int, jitter)
                == selection_of(r));
        }
        r
    }
}

/// A candidate move with its score.
#[derive(Clone, Copy, Debug)]
pub struct MoveScore {
    pub score: Score,
    pub coord: Coord,
}

impl MoveScore {
    /// Whether `first` is to be preferred to `second` by `side`: as their
    /// scores are.
    pub fn is_better_for(first: MoveScore, second: MoveScore, side: Side) -> (b: bool)
        ensures
            b == Score::better_for(first.score, second.score, side),
    {
        match side {
            Side::Light => Score::is_better(first.score, second.score),
            Side::Dark => !Score::is_better(first.score, second.score),
        }
    }
}

/// The winner is one of the scores, and none of the scores is strictly
/// better for the side than the winner's.
pub proof fn lemma_winner_is_unbeaten(scores: Seq<Score>, side: Side, n: int)
    requires
        1 <= n <= scores.len(),
        forall|i: int| 0 <= i < n ==> (#[trigger] scores[i]).wf(),
    ensures
        0 <= winner(scores, side, n) < n,
        forall|j: int|
            0 <= j < n ==> !strictly_better_for(
                #[trigger] scores[j],
                scores[winner(scores, side, n)],
                side,
            ),
    decreases n,
{
    if n > 1 {
        lemma_winner_is_unbeaten(scores, side, n - 1);
        let before = winner(scores, side, n - 1);
        let last = scores[n - 1];
        if strictly_better_for(last, scores[before], side) {
            assert forall|j: int| 0 <= j < n implies !strictly_better_for(
                #[trigger] scores[j],
                last,
                side,
            ) by {
                if j < n - 1 && strictly_better_for(scores[j], last, side) {
                    lemma_strictly_better_is_transitive(scores[j], last, scores[before], side);
                }
            }
        }
    }
}

/// The winner comes first among the best: its score is strictly better
/// for the side than every score before it.
pub proof fn lemma_winner_comes_first(scores: Seq<Score>, side: Side, n: int)
    requires
        1 <= n <= scores.len(),
        forall|i: int| 0 <= i < n ==> (#[trigger] scores[i]).wf(),
    ensures
        forall|j: int|
            0 <= j < winner(scores, side, n) ==> strictly_better_for(
                scores[winner(scores, side, n)],
                #[trigger] scores[j],
                side,
            ),
    decreases n,
{
    if n > 1 {
        lemma_winner_comes_first(scores, side, n - 1);
        lemma_winner_is_unbeaten(scores, side, n - 1);
        let before = winner(scores, side, n - 1);
        let last = scores[n - 1];
        if strictly_better_for(last, scores[before], side) {
            assert forall|j: int| 0 <= j < n - 1 implies strictly_better_for(
                last,
                #[trigger] scores[j],
                side,
            ) by {
                let other = scores[j];
                lemma_order_is_total(other, scores[before]);
                lemma_order_is_total(last, other);
                match side {
                    Side::Light => {
                        lemma_above_what_is_not_above(last, scores[before], other);
                    },
                    Side::Dark => {
                        lemma_below_what_is_not_below(last, scores[before], other);
                    },
                }
            }
        }
    }
}

/// The choice is determined by the position, the budget and the jitters:
/// two choices made of the same three are the same choice.
pub proof fn lemma_choice_is_determined(
    p: Position,
    comps: int,
    jitter: Seq<i32>,
    first: Result<Choice, SearchError>,
    second: Result<Choice, SearchError>,
)
    requires
        selection_of(first) == select(p, comps, jitter),
        selection_of(second) == select(p, comps, jitter),
    ensures
        selection_of(first) == selection_of(second),
        first matches Ok(Choice::Move(a)) ==> second == Ok::<Choice, SearchError>(Choice::Move(a)),
        first matches Err(e) ==> second == Err::<Choice, SearchError>(e),
{
}

/// What a choice asks for is there to be explored: the path leads from the
/// position to a position that is `Unexplored`.
pub proof fn lemma_choice_needs_unexplored(p: Position, comps: int, jitter: Seq<i32>)
    ensures
        select(p, comps, jitter) matches Selection::Needs(path) ==> p.reaches(path) && p.at(path)
            is Unexplored,
{
    if p is Open && p->moves.len() >= 2 {
        let share = comps / (p->moves.len() as int);
        let stop = first_unsettled(p, share, jitter, 0);
        lemma_first_unsettled_bounds(p, share, jitter, 0);
        if stop < p->moves.len() {
            let child = p->moves[stop].after;
            lemma_search_needs_unexplored(child, share);
            if let Outcome::Needs(path) = search(child, share) {
                lemma_path_through(p, stop, path);
            }
        }
    }
}

/// The first candidate without a score is not before the candidate asked
/// from, nor after the last one.
proof fn lemma_first_unsettled_bounds(p: Position, share: int, jitter: Seq<i32>, i: int)
    requires
        p is Open,
        0 <= i <= p->moves.len(),
    ensures
        i <= first_unsettled(p, share, jitter, i) <= p->moves.len(),
    decreases p->moves.len() - i,
{
    if i < p->moves.len() && candidate(p, share, jitter, i) is Settled {
        lemma_first_unsettled_bounds(p, share, jitter, i + 1);
    }
}

} // verus!
