use brill::board::board_is_legal;
use brill::board::board_legal_moves;
use brill::eval::MATE;
use brill::moves::MoveData;
use brill::moves::NO_PROMOTION;
use brill::nnue::NnueWeights;
use brill::position::Position;
use brill::runner::AbRunner;
use brill::runner::TimeControl;
use brill::time::ConstDepth;

/// Weights that make the network report plain material from the side to
/// move: the piece-square sums carry the piece values, the dense layers
/// are zero.
fn material_weights() -> NnueWeights {
    let mid = 8usize;
    let values: [i32; 6] = [100, 325, 325, 500, 900, 0];
    let mut psqt_w: Vec<Vec<i32>> = Vec::new();
    for feature in 0..768 {
        let color = (feature / 64) / 6;
        let piece = (feature / 64) % 6;
        let v = if color == 0 { values[piece] * 64 } else { -values[piece] * 64 };
        psqt_w.push(vec![v]);
    }
    NnueWeights {
        ft_w: (0..768).map(|_| vec![0i32; mid]).collect(),
        ft_b: vec![0; mid],
        out_w: (0..mid).map(|_| vec![0i32; 1]).collect(),
        out_b: vec![0],
        psqt_w,
        pol_w: (0..768).map(|_| vec![0i32; mid]).collect(),
        pol_b: vec![0; mid],
        pol_out_w: (0..384).map(|_| vec![0i32; mid]).collect(),
        pol_out_b: vec![0; 384],
    }
}

fn runner_for(fen: &str, depth: u32) -> AbRunner {
    let board: cozy_chess::Board = fen.parse().expect("test position must parse");
    AbRunner::new(board, material_weights(), TimeControl::Depth(ConstDepth::new(depth)))
}

fn sq(name: &str) -> u8 {
    let bytes = name.as_bytes();
    let file = bytes[0] - b'a';
    let rank = bytes[1] - b'1';
    rank * 8 + file
}

#[test]
fn startpos_depth_one_gives_legal_quiet_move() {
    let board = cozy_chess::Board::default();
    let mut runner = AbRunner::new(
        board.clone(),
        material_weights(),
        TimeControl::Depth(ConstDepth::new(1)),
    );
    let (best, eval, _, nodes) = runner.search(1);
    assert!(board_is_legal(&board, best), "root move must be legal");
    assert!(eval.raw().abs() < 100, "the start position is near balance");
    assert!(nodes > 0);
}

#[test]
fn mate_in_one_is_found() {
    // white mates with the rook on the back rank
    let mut runner = runner_for("6k1/5ppp/8/8/8/8/8/R5K1 w - - 0 1", 3);
    let (best, eval, _, _) = runner.search(1);
    assert_eq!(best, MoveData::new(sq("a1"), sq("a8"), NO_PROMOTION));
    assert_eq!(eval.raw(), MATE - 1);
}

#[test]
fn mate_in_three_plies_is_found() {
    // one rook cuts the seventh rank, the other mates on the eighth:
    // mate in three plies whatever black does, and no faster mate exists
    let mut runner = runner_for("1k6/8/8/8/8/8/7R/K5R1 w - - 0 1", 7);
    let (best, eval, _, _) = runner.search(1);
    assert_eq!(eval.raw(), MATE - 3);
    let cut_with_h = MoveData::new(sq("h2"), sq("h7"), NO_PROMOTION);
    let cut_with_g = MoveData::new(sq("g1"), sq("g7"), NO_PROMOTION);
    assert!(best == cut_with_h || best == cut_with_g, "got {:?}", best);
}

#[test]
fn stalemate_position_has_no_moves_and_no_draw_claim() {
    let board: cozy_chess::Board = "k7/8/1Q6/8/8/8/8/7K b - - 0 1".parse().unwrap();
    assert!(board_legal_moves(&board).is_empty());
    let pos = Position::new(board, material_weights());
    assert!(!pos.forced_draw(0), "stalemate is not the repetition rule's draw");
}

#[test]
fn search_avoids_stalemating_when_winning() {
    // one ply before a possible stalemate trap: the queen must not grab it
    let mut runner = runner_for("k7/8/8/1Q6/8/8/8/7K w - - 0 1", 3);
    let (best, eval, _, _) = runner.search(1);
    let board: cozy_chess::Board = "k7/8/8/1Q6/8/8/8/7K w - - 0 1".parse().unwrap();
    assert!(board_is_legal(&board, best));
    assert!(eval.raw() >= 900 || eval.raw() > MATE - 100);
}

#[test]
fn free_queen_is_captured_at_depth_one() {
    let mut runner = runner_for("3q3k/8/8/8/8/8/8/3R3K w - - 0 1", 1);
    let (best, eval, _, _) = runner.search(1);
    assert_eq!(best, MoveData::new(sq("d1"), sq("d8"), NO_PROMOTION));
    assert!(eval.raw() >= 400);
}

#[test]
fn repetition_is_a_forced_draw() {
    let board = cozy_chess::Board::default();
    let mut pos = Position::new(board, material_weights());
    let knights_out = [
        ("g1", "f3"),
        ("g8", "f6"),
        ("f3", "g1"),
        ("f6", "g8"),
    ];
    // the same shuffle twice: the current position then stands in the
    // stack twice before the search window
    for _ in 0..2 {
        for (from, to) in knights_out.iter() {
            pos.make_move(MoveData::new(sq(from), sq(to), NO_PROMOTION));
        }
    }
    for (from, to) in [("g1", "f3"), ("g8", "f6")].iter() {
        pos.make_move(MoveData::new(sq(from), sq(to), NO_PROMOTION));
    }
    assert!(pos.forced_draw(0), "a position seen twice before is a draw");
}

#[test]
fn fifty_move_clock_draw() {
    let board: cozy_chess::Board = "k7/8/8/8/8/8/8/K7 w - - 100 80".parse().unwrap();
    let pos = Position::new(board, material_weights());
    assert!(pos.forced_draw(0));
    assert!(pos.insufficient_material());
}

#[test]
fn make_unmake_round_trip_random_lines() {
    let board = cozy_chess::Board::default();
    let mut pos = Position::new(board.clone(), material_weights());
    let start_hash = pos.hash();
    let start_eval = pos.get_eval().raw();
    let mut x: u64 = 0x9e37_79b9_7f4a_7c15;
    let mut played: usize = 0;
    for _ in 0..100 {
        let moves = board_legal_moves(pos.board());
        if moves.is_empty() {
            break;
        }
        x = x.wrapping_mul(6364136223846793005).wrapping_add(1442695040888963407);
        let pick = (x >> 32) as usize % moves.len();
        pos.make_move(moves[pick]);
        played += 1;
    }
    for _ in 0..played {
        pos.unmake_move();
    }
    assert_eq!(pos.hash(), start_hash);
    assert_eq!(pos.get_eval().raw(), start_eval);
    assert_eq!(format!("{}", pos.board()), format!("{}", &board));
}

#[test]
fn eval_is_material_from_side_to_move() {
    let board: cozy_chess::Board = "3q3k/8/8/8/8/8/8/3R3K w - - 0 1".parse().unwrap();
    let pos = Position::new(board, material_weights());
    assert_eq!(pos.get_eval().raw(), 500 - 900);
    let board_b: cozy_chess::Board = "3q3k/8/8/8/8/8/8/3R3K b - - 0 1".parse().unwrap();
    let pos_b = Position::new(board_b, material_weights());
    assert_eq!(pos_b.get_eval().raw(), 900 - 500);
}

#[test]
fn see_judges_captures() {
    // a protected pawn: taking it with the rook loses material
    let board: cozy_chess::Board = "k7/2p5/3p4/8/8/8/3R4/K7 w - - 0 1".parse().unwrap();
    let bad = brill::see::see(&board, MoveData::new(sq("d2"), sq("d6"), NO_PROMOTION));
    assert!(bad < 0, "rook takes a defended pawn: {}", bad);
    // a hanging queen is a clean win
    let board2: cozy_chess::Board = "3q3k/8/8/8/8/8/8/3R3K w - - 0 1".parse().unwrap();
    let good = brill::see::see(&board2, MoveData::new(sq("d1"), sq("d8"), NO_PROMOTION));
    assert!(good >= 900, "rook takes a free queen: {}", good);
}

#[test]
fn controller_round_trip() {
    let board = cozy_chess::Board::default();
    let mut runner = AbRunner::new(
        board,
        material_weights(),
        TimeControl::Depth(ConstDepth::new(2)),
    );
    assert!(runner.has_legal_move());
    assert!(runner.make_move(MoveData::new(sq("e2"), sq("e4"), NO_PROMOTION)));
    assert!(!runner.make_move(MoveData::new(sq("e2"), sq("e4"), NO_PROMOTION)));
    let (best, _, _, _) = runner.search(1);
    assert!(board_is_legal(runner.get_board(), best));
    runner.new_game();
    runner.hash(1);
    let e = runner.raw_eval();
    assert!(e.raw().abs() < 100);
    let fresh: cozy_chess::Board = "3q3k/8/8/8/8/8/8/3R3K w - - 0 1".parse().unwrap();
    runner.set_board(fresh);
    assert_eq!(runner.raw_eval().raw(), -400);
}

#[test]
fn deeper_search_still_legal_and_stable() {
    let mut runner = runner_for("r1bqkbnr/pppp1ppp/2n5/4p3/4P3/5N2/PPPP1PPP/RNBQKB1R w KQkq - 2 3", 5);
    let (best, eval, depth, nodes) = runner.search(1);
    let board: cozy_chess::Board =
        "r1bqkbnr/pppp1ppp/2n5/4p3/4P3/5N2/PPPP1PPP/RNBQKB1R w KQkq - 2 3".parse().unwrap();
    assert!(board_is_legal(&board, best));
    assert!(eval.raw().abs() < 300);
    assert!(depth >= 5);
    assert!(nodes > 10);
}
