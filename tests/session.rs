use chess_rooms::clock::MatchClock;
use chess_rooms::engine::{parse_promotion, parse_square, Promotion};
use chess_rooms::game::{GameState, MoveError};
use chess_rooms::protocol::{GameResult, PlayerColor, ServerMessage};

const START: &str = "rnbqkbnr/pppppppp/8/8/8/8/PPPPPPPP/RNBQKBNR w KQkq - 0 1";

fn play(g: &mut GameState, moves: &[(&str, &str)], now: u64) -> Vec<Result<String, MoveError>> {
    let mut out = Vec::new();
    for (from, to) in moves {
        let mover = g.current_turn();
        out.push(g.make_move_at(mover, from, to, None, now));
    }
    out
}

#[test]
fn new_match_starts_from_initial_position() {
    let g = GameState::new_at(600_000, 5);
    assert_eq!(g.get_fen(), START);
    assert_eq!(g.current_turn(), PlayerColor::White);
    assert_eq!(g.white_time_ms(), 600_000);
    assert_eq!(g.black_time_ms(), 600_000);
    assert!(!g.is_over());
    assert_eq!(g.result(), None);
    assert!(g.moves().is_empty());
}

#[test]
fn new_reads_the_clock() {
    let g = GameState::new(300_000);
    assert_eq!(g.get_fen(), START);
    assert_eq!(g.white_time_ms(), 300_000);
}

#[test]
fn pawn_move_is_played_and_logged() {
    let mut g = GameState::new_at(600_000, 0);
    let r = g.make_move_at(PlayerColor::White, "e2", "e4", None, 1_000);
    assert_eq!(r, Ok("e4".to_string()));
    assert!(g.get_fen().starts_with("rnbqkbnr/pppppppp/8/8/4P3/8/PPPP1PPP/RNBQKBNR b KQkq"));
    assert_eq!(g.current_turn(), PlayerColor::Black);
    assert_eq!(g.white_time_ms(), 599_000);
    assert_eq!(g.black_time_ms(), 600_000);
    let log = g.moves();
    assert_eq!(log.len(), 1);
    assert_eq!(log[0].san, "e4");
    assert_eq!(log[0].from, "e2");
    assert_eq!(log[0].to, "e4");
    assert_eq!(log[0].timestamp, 1_000);
}

#[test]
fn wrong_side_is_refused_without_change() {
    let mut g = GameState::new_at(600_000, 0);
    let r = g.make_move_at(PlayerColor::Black, "e7", "e5", None, 10_000);
    assert_eq!(r, Err(MoveError::NotYourTurn));
    assert_eq!(g.get_fen(), START);
    assert_eq!(g.white_time_ms(), 600_000);
    assert!(g.moves().is_empty());
}

#[test]
fn unreadable_squares_are_refused() {
    let mut g = GameState::new_at(600_000, 0);
    assert_eq!(g.make_move_at(PlayerColor::White, "z9", "e4", None, 0), Err(MoveError::InvalidFromSquare));
    assert_eq!(g.make_move_at(PlayerColor::White, "e2", "x", None, 0), Err(MoveError::InvalidToSquare));
    assert_eq!(g.get_fen(), START);
}

#[test]
fn illegal_move_is_refused_but_clock_is_charged() {
    let mut g = GameState::new_at(600_000, 0);
    assert_eq!(g.make_move_at(PlayerColor::White, "e2", "e5", None, 2_000), Err(MoveError::IllegalMove));
    assert_eq!(g.get_fen(), START);
    assert_eq!(g.white_time_ms(), 598_000);
}

#[test]
fn notation_of_piece_moves_and_captures() {
    let mut g = GameState::new_at(600_000, 0);
    let r = play(&mut g, &[("e2", "e4"), ("d7", "d5"), ("e4", "d5"), ("g8", "f6"), ("g1", "f3"), ("f6", "d5")], 0);
    let sans: Vec<String> = r.into_iter().map(|x| x.unwrap()).collect();
    assert_eq!(sans, vec!["e4", "d5", "exd5", "Nf6", "Nf3", "Nxd5"]);
    assert_eq!(g.moves().len(), 6);
}

#[test]
fn checkmate_ends_the_match_for_the_mover() {
    let mut g = GameState::new_at(600_000, 0);
    let r = play(&mut g, &[("f2", "f3"), ("e7", "e5"), ("g2", "g4"), ("d8", "h4")], 0);
    assert_eq!(r[3], Ok("Qh4".to_string()));
    assert!(g.is_over());
    assert_eq!(g.result(), Some(GameResult::BlackWins));
    assert_eq!(g.make_move_at(PlayerColor::White, "e1", "f2", None, 0), Err(MoveError::MatchOver));
    assert_eq!(g.make_move_at(PlayerColor::Black, "e8", "e7", None, 0), Err(MoveError::NotYourTurn));
}

#[test]
fn promotion_is_played_and_noted() {
    let mut g = GameState::new_at(600_000, 0);
    let r = play(
        &mut g,
        &[("h2", "h4"), ("g7", "g5"), ("h4", "g5"), ("h7", "h6"), ("g5", "h6"), ("f8", "g7"), ("h6", "g7"), ("g8", "f6")],
        0,
    );
    assert!(r.iter().all(|x| x.is_ok()));
    assert_eq!(g.make_move_at(PlayerColor::White, "g7", "h8", None, 0), Err(MoveError::IllegalMove));
    let r = g.make_move_at(PlayerColor::White, "g7", "h8", Some("q"), 0);
    assert_eq!(r, Ok("gxh8=Q".to_string()));
    assert!(g.get_fen().starts_with("rnbqk2Q/"));
}

#[test]
fn underpromotion_to_knight() {
    let mut g = GameState::new_at(600_000, 0);
    play(
        &mut g,
        &[("h2", "h4"), ("g7", "g5"), ("h4", "g5"), ("h7", "h6"), ("g5", "h6"), ("f8", "g7"), ("h6", "g7"), ("g8", "f6")],
        0,
    );
    let r = g.make_move_at(PlayerColor::White, "g7", "h8", Some("n"), 0);
    assert_eq!(r, Ok("gxh8=N".to_string()));
}

#[test]
fn spent_budget_times_out_at_zero() {
    let mut g = GameState::new_at(600_000, 0);
    assert!(g.update_time_at(601_000));
    assert!(g.is_over());
    assert_eq!(g.result(), Some(GameResult::Timeout { winner: PlayerColor::Black }));
    assert_eq!(g.white_time_ms(), 0);
    assert_eq!(g.black_time_ms(), 600_000);
    assert!(!g.update_time_at(700_000));
    assert_eq!(g.white_time_ms(), 0);
}

#[test]
fn move_after_budget_spent_reports_timeout() {
    let mut g = GameState::new_at(600_000, 0);
    let r = g.make_move_at(PlayerColor::White, "e2", "e4", None, 601_000);
    assert_eq!(r, Err(MoveError::OutOfTime { winner: PlayerColor::Black }));
    assert_eq!(g.get_fen(), START);
    assert_eq!(g.result(), Some(GameResult::Timeout { winner: PlayerColor::Black }));
    assert_eq!(g.white_time_ms(), 0);
}

#[test]
fn budget_exactly_spent_times_out() {
    let mut g = GameState::new_at(1_000, 0);
    assert!(g.update_time_at(1_000));
    assert_eq!(g.white_time_ms(), 0);
}

#[test]
fn tick_charges_only_the_side_to_move() {
    let mut g = GameState::new_at(600_000, 0);
    assert!(!g.update_time_at(1_500));
    assert_eq!(g.white_time_ms(), 598_500);
    assert!(!g.update_time_at(2_000));
    assert_eq!(g.white_time_ms(), 598_000);
    g.make_move_at(PlayerColor::White, "e2", "e4", None, 3_000).unwrap();
    assert_eq!(g.white_time_ms(), 597_000);
    assert!(!g.update_time_at(10_000));
    assert_eq!(g.black_time_ms(), 593_000);
    assert_eq!(g.white_time_ms(), 597_000);
}

#[test]
fn clock_going_back_charges_nothing() {
    let mut g = GameState::new_at(600_000, 5_000);
    assert!(!g.update_time_at(4_000));
    assert_eq!(g.white_time_ms(), 600_000);
}

#[test]
fn resignation_credits_other_side_and_ends_match() {
    let mut g = GameState::new_at(600_000, 0);
    assert_eq!(g.resign(PlayerColor::White), Ok(GameResult::Resignation { winner: PlayerColor::Black }));
    assert!(g.is_over());
    assert_eq!(g.resign(PlayerColor::White), Err(MoveError::MatchOver));
    assert_eq!(g.resign(PlayerColor::Black), Err(MoveError::MatchOver));
    assert_eq!(g.make_move_at(PlayerColor::White, "e2", "e4", None, 0), Err(MoveError::MatchOver));
    assert_eq!(g.result(), Some(GameResult::Resignation { winner: PlayerColor::Black }));
}

#[test]
fn snapshot_shows_fresh_clock_without_changing_it() {
    let mut g = GameState::new_at(600_000, 0);
    g.make_move_at(PlayerColor::White, "e2", "e4", None, 1_000).unwrap();
    match g.snapshot_at(3_000) {
        ServerMessage::GameState { fen, moves, white_time, black_time, current_turn } => {
            assert_eq!(fen, g.get_fen());
            assert_eq!(moves.len(), 1);
            assert_eq!(white_time, 599_000);
            assert_eq!(black_time, 598_000);
            assert_eq!(current_turn, PlayerColor::Black);
        }
        other => panic!("unexpected {:?}", other),
    }
    assert_eq!(g.black_time_ms(), 600_000);
}

#[test]
fn squares_read_file_then_rank() {
    assert_eq!(parse_square("a1"), Some(0));
    assert_eq!(parse_square("e4"), Some(28));
    assert_eq!(parse_square("h8"), Some(63));
    assert_eq!(parse_square("e4x"), Some(28));
    assert_eq!(parse_square("i1"), None);
    assert_eq!(parse_square("a9"), None);
    assert_eq!(parse_square("e"), None);
    assert_eq!(parse_square(""), None);
    assert_eq!(parse_square("é"), None);
}

#[test]
fn promotion_letters() {
    assert_eq!(parse_promotion(Some("q")), Some(Promotion::Queen));
    assert_eq!(parse_promotion(Some("r")), Some(Promotion::Rook));
    assert_eq!(parse_promotion(Some("b")), Some(Promotion::Bishop));
    assert_eq!(parse_promotion(Some("n")), Some(Promotion::Knight));
    assert_eq!(parse_promotion(Some("k")), None);
    assert_eq!(parse_promotion(Some("qq")), None);
    assert_eq!(parse_promotion(None), None);
}

#[test]
fn refusal_reasons() {
    assert_eq!(MoveError::NotYourTurn.reason(), "Not your turn");
    assert_eq!(MoveError::MatchOver.reason(), "Game is over");
    assert_eq!(MoveError::IllegalMove.reason(), "Illegal move");
    assert_eq!(MoveError::InvalidFromSquare.reason(), "Invalid from square");
    assert_eq!(MoveError::InvalidToSquare.reason(), "Invalid to square");
    assert_eq!(MoveError::OutOfTime { winner: PlayerColor::White }.reason(), "Out of time");
}

#[test]
fn clock_advance_clamps_at_zero() {
    let mut c = MatchClock::new(600_000, 0);
    assert!(!c.advance(PlayerColor::Black, 100));
    assert_eq!(c.black_time_ms, 599_900);
    assert_eq!(c.last_move_time, 100);
    assert!(c.advance(PlayerColor::White, 700_100));
    assert_eq!(c.white_time_ms, 0);
    assert_eq!(c.last_move_time, 100);
    assert_eq!(PlayerColor::White.opponent(), PlayerColor::Black);
}

#[test]
fn position_equals_engine_replay_of_log() {
    let line = [("d2", "d4"), ("g8", "f6"), ("c2", "c4"), ("e7", "e6"), ("b1", "c3"), ("f8", "b4"), ("e2", "e3"), ("e8", "g8")];
    let mut g = GameState::new_at(600_000, 0);
    let r = play(&mut g, &line, 0);
    assert!(r.iter().all(|x| x.is_ok()));
    let mut board = chess::Board::default();
    for m in g.moves() {
        let mv = chess::ChessMove::new(
            <chess::Square as std::str::FromStr>::from_str(&m.from).unwrap(),
            <chess::Square as std::str::FromStr>::from_str(&m.to).unwrap(),
            None,
        );
        assert!(board.legal(mv));
        board = board.make_move_new(mv);
    }
    assert_eq!(g.get_fen(), format!("{}", board));
    assert_eq!(g.moves().last().unwrap().san, "Kg8");
}
