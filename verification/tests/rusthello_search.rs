use games::rusthello::ai_player::{AiPlayer, Choice, MoveScore, MEDIUM, STRONG, WEAK};
use games::rusthello::board::{Board, Coord, SearchError, BOARD_SIZE, NUM_CELLS};
use games::rusthello::heuristic::heavy_eval;
use games::rusthello::jitter::{apply_jitter, draw_jitter, JITTER_UNIT, RANDOMNESS};
use games::rusthello::position::{Branch, Position};
use games::rusthello::score::{Ratio, Score, Side};
use games::rusthello::search::Progress;
use std::cmp::Ordering;

fn board_with(disks: &[(usize, usize, Side)]) -> Board {
    let mut board = Board::new();
    for &(row, col, side) in disks {
        board.set_cell(Coord::new(row, col), Some(side)).unwrap();
    }
    board
}

fn branch(row: usize, col: usize, after: Position) -> Branch {
    Branch { coord: Coord::new(row, col), after }
}

fn running_game(side: Side, board: Board, moves: Vec<Branch>) -> Position {
    Position::Open { side, board, moves }
}

/// A running game of which nothing but the board is known yet.
fn leaf(side: Side, disks: &[(usize, usize, Side)]) -> Position {
    running_game(
        side,
        board_with(disks),
        vec![branch(0, 0, Position::Unexplored), branch(0, 1, Position::Unexplored)],
    )
}

fn ended(score_diff: i16) -> Position {
    Position::Ended { score_diff }
}

fn settled(r: Result<Progress, SearchError>) -> (Score, u32) {
    match r {
        Ok(Progress::Settled(score, leftover)) => (score, leftover),
        other => panic!("not settled: {:?}", other),
    }
}

fn needs(r: Result<Progress, SearchError>) -> Vec<usize> {
    match r {
        Ok(Progress::Needs(path)) => path,
        other => panic!("nothing needed: {:?}", other),
    }
}

fn chosen(r: Result<Choice, SearchError>) -> Coord {
    match r {
        Ok(Choice::Move(coord)) => coord,
        other => panic!("no move: {:?}", other),
    }
}

fn ratio(num: i64, den: i64) -> Score {
    Score::Running(Ratio { num, den })
}

/// The parts of an estimate as they are, not reduced.
fn parts(score: Score) -> (i64, i64) {
    match score {
        Score::Running(r) => (r.num, r.den),
        Score::Ended(d) => panic!("no estimate: {}", d),
    }
}

fn estimate_parts(board: &Board) -> (i64, i64) {
    let r = heavy_eval(board).unwrap();
    (r.num, r.den)
}

fn value(score: Score) -> f64 {
    match score {
        Score::Running(r) => r.num as f64 / r.den as f64,
        Score::Ended(d) => d as f64,
    }
}

#[test]
fn board_cells_are_set_and_read() {
    let mut board = Board::new();
    assert_eq!(BOARD_SIZE * BOARD_SIZE, NUM_CELLS);
    assert_eq!(board.get_cell(Coord::new(3, 4)), Ok(None));
    assert_eq!(board.set_cell(Coord::new(3, 4), Some(Side::Dark)), Ok(()));
    assert_eq!(board.get_cell(Coord::new(3, 4)), Ok(Some(Side::Dark)));
    assert_eq!(board.get_cell(Coord::new(4, 3)), Ok(None));
    assert_eq!(board.set_cell(Coord::new(3, 4), None), Ok(()));
    assert_eq!(board.get_cell(Coord::new(3, 4)), Ok(None));
}

#[test]
fn cells_off_the_board_are_out_of_bounds() {
    let mut board = Board::new();
    assert_eq!(board.get_cell(Coord::new(8, 0)), Err(SearchError::OutOfBounds));
    assert_eq!(board.get_cell(Coord::new(0, 8)), Err(SearchError::OutOfBounds));
    assert_eq!(board.set_cell(Coord::new(8, 8), Some(Side::Light)), Err(SearchError::OutOfBounds));
    assert_eq!(board.get_cell(Coord::new(7, 7)), Ok(None));
}

#[test]
fn estimate_of_an_empty_board_is_even() {
    assert_eq!(estimate_parts(&Board::new()), (0, 2));
}

#[test]
fn estimate_counts_a_corner() {
    let board = board_with(&[(0, 0, Side::Light)]);
    assert_eq!(estimate_parts(&board), (45, 47));
    let board = board_with(&[(7, 7, Side::Dark)]);
    assert_eq!(estimate_parts(&board), (-45, 47));
}

#[test]
fn held_corner_hides_its_neighbours() {
    let board = board_with(&[
        (0, 0, Side::Light),
        (0, 1, Side::Light),
        (1, 1, Side::Light),
        (1, 0, Side::Dark),
        (2, 2, Side::Dark),
    ]);
    assert_eq!(estimate_parts(&board), (45, 47));
}

#[test]
fn estimate_counts_the_cells_next_to_an_empty_corner() {
    // a disk next to the corner on an edge gives 6 to the other side
    let board = board_with(&[(0, 1, Side::Dark)]);
    assert_eq!(estimate_parts(&board), (6, 8));
    // and hides the cell after it
    let board = board_with(&[(0, 1, Side::Dark), (0, 2, Side::Dark)]);
    assert_eq!(estimate_parts(&board), (6, 8));
    // a disk two cells from the corner on an edge gives 4 to its owner
    let board = board_with(&[(0, 2, Side::Light)]);
    assert_eq!(estimate_parts(&board), (4, 6));
    // the other edge counts alike
    let board = board_with(&[(1, 0, Side::Light), (7, 5, Side::Dark)]);
    assert_eq!(estimate_parts(&board), (-10, 12));
    // a disk diagonally next to the corner gives 25 to the other side
    let board = board_with(&[(6, 1, Side::Light)]);
    assert_eq!(estimate_parts(&board), (-25, 27));
    // a disk two cells down the diagonal gives 10 to its owner
    let board = board_with(&[(2, 5, Side::Dark)]);
    assert_eq!(estimate_parts(&board), (-10, 12));
}

#[test]
fn estimate_adds_up_over_the_corners() {
    let board = board_with(&[
        (0, 0, Side::Light),
        (0, 7, Side::Dark),
        (6, 0, Side::Dark),
        (7, 2, Side::Light),
        (6, 6, Side::Light),
        (3, 3, Side::Dark),
    ]);
    // light: 1 + 45 + 6 + 4, dark: 1 + 45 + 25
    assert_eq!(estimate_parts(&board), (56 - 71, 56 + 71));
}

#[test]
fn mirrored_board_has_the_opposite_estimate() {
    let disks = [
        (0, 1, Side::Dark),
        (2, 0, Side::Light),
        (1, 6, Side::Light),
        (7, 0, Side::Dark),
        (5, 5, Side::Light),
        (7, 5, Side::Dark),
        (4, 4, Side::Light),
    ];
    let mirrored: Vec<(usize, usize, Side)> = disks
        .iter()
        .map(|&(row, col, side)| {
            (row, 7 - col, if side == Side::Light { Side::Dark } else { Side::Light })
        })
        .collect();
    let plain = heavy_eval(&board_with(&disks)).unwrap();
    let turned = heavy_eval(&board_with(&mirrored)).unwrap();
    assert_eq!(turned.num, -plain.num);
    assert_eq!(turned.den, plain.den);
    assert!(plain.num != 0);
}

#[test]
fn finished_game_has_its_result_and_costs_nothing() {
    let (score, leftover) = settled(AiPlayer::ai_eval_with_leftover(&ended(-12), 40));
    assert_eq!(score, Score::Ended(-12));
    assert_eq!(leftover, 40);
}

#[test]
fn running_game_without_moves_is_an_error() {
    let p = running_game(Side::Dark, Board::new(), vec![]);
    assert!(matches!(AiPlayer::ai_eval_with_leftover(&p, 10), Err(SearchError::NoLegalMoves)));
    assert!(matches!(AiPlayer::select_move(&p, 10, &vec![]), Err(SearchError::NoLegalMoves)));
    assert!(matches!(AiPlayer::find_best_move(&p, 10), Err(SearchError::NoLegalMoves)));
    assert!(matches!(AiPlayer::find_best_move(&ended(3), 10), Err(SearchError::NoLegalMoves)));
}

#[test]
fn opening_with_a_unit_for_each_candidate_estimates_them_all() {
    let root = running_game(
        Side::Dark,
        Board::new(),
        vec![
            branch(2, 3, leaf(Side::Light, &[(0, 0, Side::Light)])),
            branch(3, 2, leaf(Side::Light, &[(0, 0, Side::Dark)])),
            branch(4, 5, leaf(Side::Light, &[(0, 1, Side::Light)])),
            branch(5, 4, leaf(Side::Light, &[])),
        ],
    );
    // estimates: 45/47, -45/47, -6/8, 0/2; Dark looks for the least
    let (score, leftover) = settled(AiPlayer::ai_eval_with_leftover(&root, 4));
    assert_eq!(parts(score), (-45, 47));
    assert_eq!(leftover, 0);
    // with fewer units than candidates nothing else happens
    let (score, leftover) = settled(AiPlayer::ai_eval_with_leftover(&root, 0));
    assert_eq!(parts(score), (-45, 47));
    assert_eq!(leftover, 0);
}

#[test]
fn light_takes_the_greatest_estimate() {
    let root = running_game(
        Side::Light,
        Board::new(),
        vec![
            branch(2, 3, leaf(Side::Dark, &[(0, 1, Side::Light)])),
            branch(3, 2, leaf(Side::Dark, &[(0, 2, Side::Light)])),
            branch(4, 5, leaf(Side::Dark, &[])),
        ],
    );
    let (score, leftover) = settled(AiPlayer::ai_eval_with_leftover(&root, 3));
    assert_eq!(parts(score), (4, 6));
    assert_eq!(leftover, 0);
}

#[test]
fn candidates_that_end_the_game_give_exact_results() {
    let root = running_game(
        Side::Light,
        board_with(&[(0, 0, Side::Dark)]),
        vec![branch(0, 1, ended(-4)), branch(5, 5, ended(6)), branch(7, 7, ended(2))],
    );
    for budget in [0, 1, 3, 4, 100] {
        let (score, leftover) = settled(AiPlayer::ai_eval_with_leftover(&root, budget));
        assert_eq!(score, Score::Ended(6));
        assert_eq!(leftover, if budget >= 3 { budget - 3 } else { 0 });
    }
    let root = running_game(
        Side::Dark,
        Board::new(),
        vec![branch(0, 1, ended(-4)), branch(5, 5, ended(6)), branch(7, 7, ended(2))],
    );
    let (score, _) = settled(AiPlayer::ai_eval_with_leftover(&root, 100));
    assert_eq!(score, Score::Ended(-4));
}

#[test]
fn forced_moves_cost_nothing() {
    let chain = running_game(
        Side::Dark,
        Board::new(),
        vec![branch(
            1,
            1,
            running_game(Side::Light, Board::new(), vec![branch(2, 2, ended(8))]),
        )],
    );
    for budget in [0, 1, 7, 1000] {
        let (score, leftover) = settled(AiPlayer::ai_eval_with_leftover(&chain, budget));
        assert_eq!(score, Score::Ended(8));
        assert_eq!(leftover, budget);
    }
}

#[test]
fn forced_moves_hand_the_whole_budget_on() {
    let below = || {
        running_game(
            Side::Dark,
            Board::new(),
            vec![branch(0, 0, ended(1)), branch(0, 1, ended(-1)), branch(0, 2, ended(5))],
        )
    };
    let chain = running_game(
        Side::Dark,
        Board::new(),
        vec![branch(1, 1, running_game(Side::Light, Board::new(), vec![branch(2, 2, below())]))],
    );
    let direct = settled(AiPlayer::ai_eval_with_leftover(&below(), 10));
    let through_chain = settled(AiPlayer::ai_eval_with_leftover(&chain, 10));
    assert_eq!(direct, (Score::Ended(-1), 7));
    assert_eq!(through_chain, direct);
}

#[test]
fn unspent_units_go_to_the_candidates_that_follow() {
    let two_endings = |a: i16, b: i16| {
        running_game(Side::Dark, Board::new(), vec![branch(0, 0, ended(a)), branch(0, 1, ended(b))])
    };
    let forced = running_game(Side::Dark, Board::new(), vec![branch(3, 3, ended(3))]);
    let root = running_game(
        Side::Light,
        Board::new(),
        vec![
            branch(2, 3, two_endings(9, 1)),
            branch(3, 2, forced),
            branch(4, 5, two_endings(-2, 7)),
        ],
    );
    // 10 units, 3 candidates: 7 are left to share.
    // last candidate: 7 / 3 = 2 units, all spent, score -2; 5 left.
    // middle candidate: 5 / 2 = 2 units, forced move, none spent, score 3; 5 left.
    // first candidate: 5 / 1 = 5 units, 2 spent, score 1; 3 left.
    let (score, leftover) = settled(AiPlayer::ai_eval_with_leftover(&root, 10));
    assert_eq!(score, Score::Ended(3));
    assert_eq!(leftover, 3);
}

#[test]
fn search_goes_deeper_while_units_last() {
    let inner = |disks: &[(usize, usize, Side)]| {
        running_game(
            Side::Dark,
            Board::new(),
            vec![branch(0, 0, leaf(Side::Light, disks)), branch(0, 1, leaf(Side::Light, &[]))],
        )
    };
    let root = running_game(
        Side::Light,
        Board::new(),
        vec![
            branch(2, 3, inner(&[(0, 0, Side::Light)])),
            branch(3, 2, inner(&[(0, 0, Side::Dark)])),
        ],
    );
    // 6 units, 2 candidates: 4 left. Last candidate gets 2: both replies are
    // estimated, Dark takes -45/47, nothing comes back; 2 left. First
    // candidate gets 2: Dark takes 0/2. Light takes 0/2.
    let (score, leftover) = settled(AiPlayer::ai_eval_with_leftover(&root, 6));
    assert_eq!(parts(score), (0, 2));
    assert_eq!(leftover, 0);
    // 3 units: 1 left. That is less than 2 candidates, so the last one is
    // estimated as it is; then it is enough for the one that remains, which
    // gets it and spends it.
    let (score, leftover) = settled(AiPlayer::ai_eval_with_leftover(&root, 3));
    assert_eq!(parts(score), (0, 2));
    assert_eq!(leftover, 0);
    // 2 units: none left, both candidates are estimated as they are
    let (score, leftover) = settled(AiPlayer::ai_eval_with_leftover(&root, 2));
    assert_eq!(parts(score), (0, 2));
    assert_eq!(leftover, 0);
}

#[test]
fn never_more_units_left_than_given() {
    let inner = || {
        running_game(
            Side::Dark,
            Board::new(),
            vec![branch(0, 0, ended(1)), branch(0, 1, leaf(Side::Light, &[])), branch(0, 2, ended(2))],
        )
    };
    let root = running_game(
        Side::Light,
        Board::new(),
        vec![branch(2, 3, inner()), branch(3, 2, inner()), branch(4, 5, ended(0))],
    );
    for budget in 0..40 {
        match AiPlayer::ai_eval_with_leftover(&root, budget) {
            Ok(Progress::Settled(_, leftover)) => assert!(leftover <= budget),
            Ok(Progress::Needs(_)) => {},
            Err(e) => panic!("{:?}", e),
        }
    }
}

#[test]
fn search_asks_for_what_it_misses() {
    assert_eq!(needs(AiPlayer::ai_eval_with_leftover(&Position::Unexplored, 5)), vec![]);
    let root = running_game(
        Side::Light,
        Board::new(),
        vec![branch(2, 3, Position::Unexplored), branch(3, 2, Position::Unexplored)],
    );
    // the last candidate is looked at first
    assert_eq!(needs(AiPlayer::ai_eval_with_leftover(&root, 5)), vec![1]);
    let forced = running_game(Side::Dark, Board::new(), vec![branch(1, 1, root)]);
    assert_eq!(needs(AiPlayer::ai_eval_with_leftover(&forced, 5)), vec![0, 1]);
}

#[test]
fn search_goes_on_after_a_graft() {
    let mut root = running_game(
        Side::Light,
        Board::new(),
        vec![branch(2, 3, Position::Unexplored), branch(3, 2, Position::Unexplored)],
    );
    let path = needs(AiPlayer::ai_eval_with_leftover(&root, 6));
    assert_eq!(path, vec![1]);
    assert!(root.leads(&path));
    assert_eq!(root.graft(&path, leaf(Side::Dark, &[(0, 0, Side::Dark)])), Ok(()));
    // 4 units left, 2 for the last candidate: its replies are needed
    let path = needs(AiPlayer::ai_eval_with_leftover(&root, 6));
    assert_eq!(path, vec![1, 1]);
    assert_eq!(root.graft(&path, ended(-3)), Ok(()));
    let path = needs(AiPlayer::ai_eval_with_leftover(&root, 6));
    assert_eq!(path, vec![1, 0]);
    assert_eq!(root.graft(&path, ended(5)), Ok(()));
    let path = needs(AiPlayer::ai_eval_with_leftover(&root, 6));
    assert_eq!(path, vec![0]);
    assert_eq!(root.graft(&path, ended(-1)), Ok(()));
    let (score, leftover) = settled(AiPlayer::ai_eval_with_leftover(&root, 6));
    // the last candidate is worth -3 to Dark, the first ends at -1
    assert_eq!(score, Score::Ended(-1));
    assert_eq!(leftover, 2);
}

#[test]
fn graft_off_the_tree_is_refused() {
    let mut root = running_game(Side::Light, Board::new(), vec![branch(2, 3, ended(1))]);
    assert!(!root.leads(&vec![1]));
    assert!(!root.leads(&vec![0, 0]));
    assert_eq!(root.graft(&vec![1], ended(2)), Err(SearchError::IllegalMove));
    assert_eq!(root.graft(&vec![0, 0], ended(2)), Err(SearchError::IllegalMove));
    let (score, _) = settled(AiPlayer::ai_eval_with_leftover(&root, 1));
    assert_eq!(score, Score::Ended(1));
    assert_eq!(root.graft(&vec![], ended(9)), Ok(()));
    assert!(root.is_endgame());
    assert_eq!(root.get_state(), None);
}

#[test]
fn state_of_a_position() {
    assert_eq!(leaf(Side::Dark, &[]).get_state(), Some(Side::Dark));
    assert!(!leaf(Side::Dark, &[]).is_endgame());
    assert!(ended(0).is_endgame());
    assert!(!Position::Unexplored.is_endgame());
    assert_eq!(Position::Unexplored.get_state(), None);
}

#[test]
fn jitter_scales_estimates_only() {
    assert_eq!(apply_jitter(Score::Ended(-3), 49_999), Score::Ended(-3));
    assert_eq!(parts(apply_jitter(ratio(45, 47), 0)), (45_000_000, 47_000_000));
    assert_eq!(parts(apply_jitter(ratio(45, 47), 49_999)), (45 * 1_049_999, 47_000_000));
    assert_eq!(parts(apply_jitter(ratio(-6, 8), -50_000)), (-6 * 950_000, 8_000_000));
    assert_eq!(apply_jitter(ratio(45, 47), 0).compare(&ratio(45, 47)), Ordering::Equal);
    assert_eq!(apply_jitter(ratio(45, 47), 0), ratio(45, 47));
    assert!(apply_jitter(ratio(45, 47), 1) > ratio(45, 47));
    assert!(apply_jitter(ratio(45, 47), -1) < ratio(45, 47));
    assert!(apply_jitter(ratio(-45, 47), 1) < ratio(-45, 47));
    assert_eq!(JITTER_UNIT, 1_000_000);
    assert_eq!(RANDOMNESS, 50_000);
}

#[test]
fn drawn_jitter_is_in_range() {
    for _ in 0..20 {
        let jitter = draw_jitter();
        assert!(-RANDOMNESS <= jitter && jitter < RANDOMNESS);
    }
}

#[test]
fn evaluation_stays_within_the_jitter() {
    let p = running_game(
        Side::Light,
        Board::new(),
        vec![
            branch(2, 3, leaf(Side::Dark, &[(0, 0, Side::Light)])),
            branch(3, 2, leaf(Side::Dark, &[])),
        ],
    );
    let (steady, left) = settled(AiPlayer::ai_eval_with_jitter(&p, 2, 0));
    assert_eq!(parts(steady), (45_000_000, 47_000_000));
    assert_eq!(left, 0);
    let (shaken, left) = settled(AiPlayer::ai_eval(&p, 2));
    assert_eq!(left, 0);
    let exact = 45.0 / 47.0;
    assert!((value(shaken) - exact).abs() <= 0.05 * exact + 1e-12);
    let (result, left) = settled(AiPlayer::ai_eval(&ended(4), 9));
    assert_eq!(result, Score::Ended(4));
    assert_eq!(left, 9);
}

#[test]
fn best_score_for_each_side() {
    let scores = vec![Score::Ended(-2), ratio(1, 2), Score::Ended(3), ratio(-1, 2), Score::Ended(3)];
    assert_eq!(AiPlayer::pick_best(&scores, Side::Light), Some(2));
    assert_eq!(AiPlayer::pick_best(&scores, Side::Dark), Some(0));
    assert_eq!(AiPlayer::pick_best(&vec![], Side::Dark), None);
}

#[test]
fn first_of_equally_good_scores_is_kept() {
    let scores = vec![ratio(1, 2), ratio(2, 4), ratio(3, 6)];
    assert_eq!(AiPlayer::pick_best(&scores, Side::Light), Some(0));
    assert_eq!(AiPlayer::pick_best(&scores, Side::Dark), Some(0));
    let scores = vec![Score::Ended(1), Score::Ended(0), Score::Ended(0), Score::Ended(1)];
    assert_eq!(AiPlayer::pick_best(&scores, Side::Light), Some(0));
    assert_eq!(AiPlayer::pick_best(&scores, Side::Dark), Some(1));
}

#[test]
fn single_legal_move_is_played_without_a_search() {
    let root = running_game(Side::Dark, Board::new(), vec![branch(4, 2, Position::Unexplored)]);
    assert_eq!(chosen(AiPlayer::select_move(&root, 1000, &vec![])), Coord::new(4, 2));
    assert_eq!(chosen(AiPlayer::find_best_move(&root, 1000)), Coord::new(4, 2));
    assert_eq!(chosen(AiPlayer::Strong.make_move(&root)), Coord::new(4, 2));
}

fn opening() -> Position {
    let reply = |disks: &[(usize, usize, Side)]| {
        running_game(
            Side::Light,
            Board::new(),
            vec![branch(0, 0, leaf(Side::Dark, disks)), branch(0, 1, leaf(Side::Dark, &[(7, 7, Side::Dark)]))],
        )
    };
    running_game(
        Side::Dark,
        Board::new(),
        vec![
            branch(2, 3, reply(&[(0, 0, Side::Light)])),
            branch(3, 2, reply(&[(0, 1, Side::Light)])),
            branch(4, 5, reply(&[(0, 2, Side::Light)])),
            branch(5, 4, reply(&[])),
        ],
    )
}

#[test]
fn move_with_the_best_score_is_chosen() {
    // each candidate gets 4 / 4 = 1 unit, so Light's two replies are
    // estimated: Light takes 45/47, -6/8, 4/6 and 0/2 over -45/47, and Dark
    // the least of these.
    let root = opening();
    assert_eq!(chosen(AiPlayer::select_move(&root, 4, &vec![])), Coord::new(3, 2));
    assert_eq!(chosen(AiPlayer::select_move(&root, 4, &vec![0, 0, 0, 0])), Coord::new(3, 2));
    assert_eq!(chosen(AiPlayer::find_best_move(&root, 4)), Coord::new(3, 2));
}

#[test]
fn choice_is_the_same_every_time() {
    let root = opening();
    let jitter = vec![100, -20_000, 49_999, -50_000];
    let first = chosen(AiPlayer::select_move(&root, 7, &jitter));
    let second = chosen(AiPlayer::select_move(&root, 7, &jitter));
    assert_eq!(first, second);
    let first = chosen(AiPlayer::select_move(&root, 7, &vec![]));
    let second = chosen(AiPlayer::select_move(&root, 7, &vec![]));
    assert_eq!(first, second);
}

#[test]
fn first_of_equally_good_moves_is_chosen() {
    let root = running_game(
        Side::Light,
        Board::new(),
        vec![branch(2, 3, ended(1)), branch(3, 2, ended(4)), branch(4, 5, ended(4))],
    );
    assert_eq!(chosen(AiPlayer::select_move(&root, 10, &vec![])), Coord::new(3, 2));
    let root = running_game(
        Side::Dark,
        Board::new(),
        vec![branch(2, 3, ended(1)), branch(3, 2, ended(1)), branch(4, 5, ended(4))],
    );
    assert_eq!(chosen(AiPlayer::select_move(&root, 10, &vec![])), Coord::new(2, 3));
}

#[test]
fn choice_asks_for_what_it_misses() {
    let root = running_game(
        Side::Light,
        Board::new(),
        vec![branch(2, 3, ended(1)), branch(3, 2, Position::Unexplored), branch(4, 5, Position::Unexplored)],
    );
    match AiPlayer::select_move(&root, 10, &vec![]) {
        Ok(Choice::Needs(path)) => assert_eq!(path, vec![1]),
        other => panic!("{:?}", other),
    }
    match AiPlayer::select_move(&Position::Unexplored, 10, &vec![]) {
        Ok(Choice::Needs(path)) => assert_eq!(path, vec![]),
        other => panic!("{:?}", other),
    }
}

#[test]
fn players_by_strength() {
    assert_eq!((WEAK, MEDIUM, STRONG), (100, 1000, 10000));
    let root = running_game(
        Side::Dark,
        Board::new(),
        vec![branch(2, 3, ended(1)), branch(3, 2, ended(-7)), branch(4, 5, ended(4))],
    );
    assert_eq!(chosen(AiPlayer::Weak.make_move(&root)), Coord::new(3, 2));
    assert_eq!(chosen(AiPlayer::Medium.make_move(&root)), Coord::new(3, 2));
    assert_eq!(chosen(AiPlayer::Strong.make_move(&root)), Coord::new(3, 2));
    match AiPlayer::Weak.make_move(&opening()) {
        Ok(Choice::Needs(path)) => assert_eq!(path, vec![0, 1, 1]),
        other => panic!("{:?}", other),
    }
}

#[test]
fn moves_compare_as_their_scores() {
    let a = MoveScore { score: Score::Ended(2), coord: Coord::new(0, 0) };
    let b = MoveScore { score: ratio(1, 3), coord: Coord::new(7, 7) };
    assert!(MoveScore::is_better_for(a, b, Side::Light));
    assert!(!MoveScore::is_better_for(a, b, Side::Dark));
    assert!(MoveScore::is_better_for(b, a, Side::Dark));
}

#[test]
fn evaluation_is_taken_up_again() {
    let mut root = running_game(
        Side::Dark,
        Board::new(),
        vec![branch(2, 3, Position::Unexplored), branch(3, 2, ended(2))],
    );
    let mut progress = AiPlayer::ai_eval(&root, 9);
    let mut asked = Vec::new();
    let score = loop {
        match progress {
            Ok(Progress::Settled(score, leftover)) => {
                assert_eq!(leftover, 7);
                break score;
            },
            Ok(Progress::Needs(path)) => {
                asked.push(path.clone());
                progress = AiPlayer::resume(&mut root, &path, ended(-6), 9);
            },
            Err(e) => panic!("{:?}", e),
        }
    };
    assert_eq!(asked, vec![vec![0]]);
    assert_eq!(score, Score::Ended(-6));
    assert!(matches!(
        AiPlayer::resume(&mut root, &vec![5], ended(0), 9),
        Err(SearchError::IllegalMove)
    ));
    let (score, _) = settled(AiPlayer::ai_eval_with_leftover(&root, 9));
    assert_eq!(score, Score::Ended(-6));
}

#[test]
fn drawn_jitter_is_the_same_every_time() {
    let first = draw_jitter();
    for _ in 0..5 {
        assert_eq!(draw_jitter(), first);
    }
    // the first number of the unseeded generator is 2917185654; in a range
    // of 100000 numbers from -50000 on it stands for this one
    assert_eq!(first, (2917185654u32 % 100_000) as i32 - 50_000);
    assert_ne!(first, -RANDOMNESS);
    assert_ne!(first, RANDOMNESS);
}
