use chess_rooms::dispatch::Hub;
use chess_rooms::protocol::{ClientMessage, GameResult, PlayerColor, ServerMessage};

fn id(s: &str) -> String {
    s.to_string()
}

fn create(code: &str) -> ClientMessage {
    ClientMessage::CreateRoom { room_code: code.to_string() }
}

fn join(code: &str) -> ClientMessage {
    ClientMessage::JoinRoom { room_code: code.to_string() }
}

fn mv(from: &str, to: &str) -> ClientMessage {
    ClientMessage::MakeMove { from: from.to_string(), to: to.to_string(), promotion: None }
}

fn error(text: &str) -> ServerMessage {
    ServerMessage::Error { message: text.to_string() }
}

fn invalid(text: &str) -> ServerMessage {
    ServerMessage::InvalidMove { reason: text.to_string() }
}

/// A hub where "w" created room "ROOM" and "b" joined it at time 0; queues
/// are emptied.
fn paired() -> Hub {
    let mut hub = Hub::new();
    assert!(hub.connect(id("w")));
    assert!(hub.connect(id("b")));
    hub.handle_message_at(&id("w"), create("ROOM"), 0);
    hub.handle_message_at(&id("b"), join("ROOM"), 0);
    hub.take_outbox(&id("w"));
    hub.take_outbox(&id("b"));
    hub
}

#[test]
fn create_room_assigns_white() {
    let mut hub = Hub::new();
    hub.connect(id("a"));
    hub.handle_message_at(&id("a"), create("ABC123"), 0);
    assert_eq!(
        hub.take_outbox(&id("a")),
        vec![ServerMessage::RoomCreated { room_code: "ABC123".to_string(), player_color: PlayerColor::White }]
    );
    assert_eq!(hub.find_room_for(&id("a")), Some(("ABC123".to_string(), PlayerColor::White)));
}

#[test]
fn same_code_created_twice_only_first_succeeds() {
    let mut hub = Hub::new();
    hub.connect(id("a"));
    hub.connect(id("b"));
    hub.handle_message_at(&id("a"), create("X"), 0);
    hub.handle_message_at(&id("b"), create("X"), 0);
    assert!(matches!(hub.take_outbox(&id("a"))[..], [ServerMessage::RoomCreated { .. }]));
    assert_eq!(hub.take_outbox(&id("b")), vec![error("Room code already in use")]);
    assert_eq!(hub.find_room_for(&id("b")), None);
}

#[test]
fn connect_twice_keeps_queue() {
    let mut hub = Hub::new();
    assert!(hub.connect(id("a")));
    hub.handle_message_at(&id("a"), create("X"), 0);
    assert!(!hub.connect(id("a")));
    assert_eq!(hub.take_outbox(&id("a")).len(), 1);
}

#[test]
fn join_pairs_and_broadcasts_state() {
    let mut hub = Hub::new();
    hub.connect(id("w"));
    hub.connect(id("b"));
    hub.handle_message_at(&id("w"), create("ROOM"), 0);
    hub.handle_message_at(&id("b"), join("ROOM"), 500);
    let w = hub.take_outbox(&id("w"));
    let b = hub.take_outbox(&id("b"));
    assert_eq!(w.len(), 3);
    assert!(matches!(w[0], ServerMessage::RoomCreated { .. }));
    assert_eq!(w[1], ServerMessage::OpponentJoined);
    assert_eq!(b.len(), 2);
    assert_eq!(b[0], ServerMessage::RoomJoined { room_code: "ROOM".to_string(), player_color: PlayerColor::Black });
    assert_eq!(w[2], b[1]);
    match &b[1] {
        ServerMessage::GameState { fen, moves, white_time, black_time, current_turn } => {
            assert_eq!(fen, "rnbqkbnr/pppppppp/8/8/8/8/PPPPPPPP/RNBQKBNR w KQkq - 0 1");
            assert!(moves.is_empty());
            assert_eq!(*white_time, 600_000);
            assert_eq!(*black_time, 600_000);
            assert_eq!(*current_turn, PlayerColor::White);
        }
        other => panic!("unexpected {:?}", other),
    }
    assert_eq!(hub.find_room_for(&id("b")), Some(("ROOM".to_string(), PlayerColor::Black)));
}

#[test]
fn third_join_is_refused_and_pairing_kept() {
    let mut hub = paired();
    hub.connect(id("c"));
    hub.handle_message_at(&id("c"), join("ROOM"), 0);
    assert_eq!(hub.take_outbox(&id("c")), vec![error("Room is full")]);
    assert!(hub.take_outbox(&id("w")).is_empty());
    assert!(hub.take_outbox(&id("b")).is_empty());
    assert_eq!(hub.find_room_for(&id("w")), Some(("ROOM".to_string(), PlayerColor::White)));
    assert_eq!(hub.find_room_for(&id("b")), Some(("ROOM".to_string(), PlayerColor::Black)));
    assert_eq!(hub.find_room_for(&id("c")), None);
}

#[test]
fn join_unknown_room_is_refused() {
    let mut hub = Hub::new();
    hub.connect(id("a"));
    hub.handle_message_at(&id("a"), join("NOPE"), 0);
    assert_eq!(hub.take_outbox(&id("a")), vec![error("Room not found")]);
}

#[test]
fn seated_player_cannot_create_or_join_again() {
    let mut hub = paired();
    hub.handle_message_at(&id("w"), create("OTHER"), 0);
    hub.handle_message_at(&id("b"), join("ROOM"), 0);
    assert_eq!(hub.take_outbox(&id("w")), vec![error("Already in a room")]);
    assert_eq!(hub.take_outbox(&id("b")), vec![error("Already in a room")]);
}

#[test]
fn unidentified_connection_gets_error() {
    let mut hub = Hub::new();
    hub.connect(id("a"));
    hub.handle_message_at(&id("a"), mv("e2", "e4"), 0);
    hub.handle_message_at(&id("a"), ClientMessage::Resign, 0);
    assert_eq!(hub.take_outbox(&id("a")), vec![error("Not in a room"), error("Not in a room")]);
}

#[test]
fn move_before_opponent_joins_is_refused() {
    let mut hub = Hub::new();
    hub.connect(id("a"));
    hub.handle_message_at(&id("a"), create("R"), 0);
    hub.take_outbox(&id("a"));
    hub.handle_message_at(&id("a"), mv("e2", "e4"), 0);
    hub.handle_message_at(&id("a"), ClientMessage::Resign, 0);
    assert_eq!(
        hub.take_outbox(&id("a")),
        vec![error("Waiting for an opponent"), error("Waiting for an opponent")]
    );
}

#[test]
fn wrong_side_move_only_answers_sender() {
    let mut hub = paired();
    hub.handle_message_at(&id("b"), mv("e7", "e5"), 1_000);
    assert_eq!(hub.take_outbox(&id("b")), vec![invalid("Not your turn")]);
    assert!(hub.take_outbox(&id("w")).is_empty());
    hub.handle_message_at(&id("w"), mv("e2", "e4"), 1_000);
    let w = hub.take_outbox(&id("w"));
    match &w[1] {
        ServerMessage::GameState { moves, white_time, .. } => {
            assert_eq!(moves.len(), 1);
            assert_eq!(*white_time, 599_000);
        }
        other => panic!("unexpected {:?}", other),
    }
}

#[test]
fn accepted_move_is_broadcast_then_state() {
    let mut hub = paired();
    hub.handle_message_at(&id("w"), mv("e2", "e4"), 2_000);
    let w = hub.take_outbox(&id("w"));
    let b = hub.take_outbox(&id("b"));
    assert_eq!(w, b);
    assert_eq!(w.len(), 2);
    match &w[0] {
        ServerMessage::MoveMade { from, to, san, fen } => {
            assert_eq!(from, "e2");
            assert_eq!(to, "e4");
            assert_eq!(san, "e4");
            assert!(fen.starts_with("rnbqkbnr/pppppppp/8/8/4P3/8/PPPP1PPP/RNBQKBNR b"));
        }
        other => panic!("unexpected {:?}", other),
    }
    match &w[1] {
        ServerMessage::GameState { current_turn, white_time, black_time, .. } => {
            assert_eq!(*current_turn, PlayerColor::Black);
            assert_eq!(*white_time, 598_000);
            assert_eq!(*black_time, 600_000);
        }
        other => panic!("unexpected {:?}", other),
    }
}

#[test]
fn illegal_move_only_answers_sender() {
    let mut hub = paired();
    hub.handle_message_at(&id("w"), mv("e2", "e5"), 0);
    hub.handle_message_at(&id("w"), mv("k9", "e5"), 0);
    assert_eq!(hub.take_outbox(&id("w")), vec![invalid("Illegal move"), invalid("Invalid from square")]);
    assert!(hub.take_outbox(&id("b")).is_empty());
}

#[test]
fn checkmate_is_announced() {
    let mut hub = paired();
    hub.handle_message_at(&id("w"), mv("f2", "f3"), 0);
    hub.handle_message_at(&id("b"), mv("e7", "e5"), 0);
    hub.handle_message_at(&id("w"), mv("g2", "g4"), 0);
    hub.take_outbox(&id("w"));
    hub.handle_message_at(&id("b"), mv("d8", "h4"), 0);
    let w = hub.take_outbox(&id("w"));
    assert_eq!(w.len(), 3);
    assert!(matches!(&w[0], ServerMessage::MoveMade { san, .. } if san == "Qh4"));
    assert!(matches!(w[1], ServerMessage::GameState { .. }));
    assert_eq!(w[2], ServerMessage::GameOver { result: GameResult::BlackWins });
    hub.handle_message_at(&id("w"), mv("e1", "f2"), 0);
    assert_eq!(hub.take_outbox(&id("w")), vec![invalid("Game is over")]);
}

#[test]
fn white_resigns_and_match_is_over() {
    let mut hub = paired();
    hub.handle_message_at(&id("w"), ClientMessage::Resign, 0);
    let over = ServerMessage::GameOver { result: GameResult::Resignation { winner: PlayerColor::Black } };
    assert_eq!(hub.take_outbox(&id("w")), vec![over.clone()]);
    assert_eq!(hub.take_outbox(&id("b")), vec![over]);
    hub.handle_message_at(&id("w"), ClientMessage::Resign, 0);
    hub.handle_message_at(&id("w"), mv("e2", "e4"), 0);
    assert_eq!(hub.take_outbox(&id("w")), vec![invalid("Game is over"), invalid("Game is over")]);
    hub.handle_message_at(&id("b"), ClientMessage::Resign, 0);
    assert_eq!(hub.take_outbox(&id("b")), vec![invalid("Game is over")]);
}

#[test]
fn disconnect_tells_opponent_once() {
    let mut hub = paired();
    hub.handle_message_at(&id("w"), mv("e2", "e4"), 0);
    hub.take_outbox(&id("w"));
    hub.handle_message_at(&id("b"), mv("e7", "e5"), 0);
    hub.disconnect(&id("b"));
    let w = hub.take_outbox(&id("w"));
    assert_eq!(w.len(), 3);
    assert_eq!(w[2], ServerMessage::OpponentLeft);
    assert!(hub.take_outbox(&id("b")).is_empty());
    assert_eq!(hub.find_room_for(&id("w")), Some(("ROOM".to_string(), PlayerColor::White)));
    hub.handle_message_at(&id("w"), mv("g1", "f3"), 0);
    let w = hub.take_outbox(&id("w"));
    assert!(matches!(&w[0], ServerMessage::MoveMade { san, .. } if san == "Nf3"));
}

#[test]
fn disconnect_without_opponent_sends_nothing() {
    let mut hub = Hub::new();
    hub.connect(id("a"));
    hub.connect(id("z"));
    hub.handle_message_at(&id("a"), create("R"), 0);
    hub.disconnect(&id("a"));
    assert!(hub.take_outbox(&id("z")).is_empty());
    hub.disconnect(&id("nobody"));
}

#[test]
fn queue_keeps_enqueue_order() {
    let mut hub = paired();
    hub.connect(id("x"));
    hub.connect(id("y"));
    hub.handle_message_at(&id("x"), create("R2"), 0);
    hub.handle_message_at(&id("w"), mv("e2", "e4"), 0);
    hub.handle_message_at(&id("y"), join("R2"), 0);
    hub.handle_message_at(&id("b"), mv("a7", "a5"), 0);
    hub.handle_message_at(&id("x"), ClientMessage::Resign, 0);
    hub.handle_message_at(&id("b"), mv("a7", "a5"), 0);
    let b = hub.take_outbox(&id("b"));
    assert_eq!(b.len(), 5);
    assert!(matches!(&b[0], ServerMessage::MoveMade { san, .. } if san == "e4"));
    assert!(matches!(b[1], ServerMessage::GameState { .. }));
    assert!(matches!(&b[2], ServerMessage::MoveMade { san, .. } if san == "a5"));
    assert!(matches!(b[3], ServerMessage::GameState { .. }));
    assert_eq!(b[4], invalid("Not your turn"));
    let x = hub.take_outbox(&id("x"));
    assert_eq!(x.len(), 4);
    assert_eq!(x[3], ServerMessage::GameOver { result: GameResult::Resignation { winner: PlayerColor::Black } });
}

#[test]
fn tick_times_out_idle_side() {
    let mut hub = paired();
    hub.tick_at(1_000);
    assert!(hub.take_outbox(&id("w")).is_empty());
    hub.tick_at(601_000);
    let over = ServerMessage::GameOver { result: GameResult::Timeout { winner: PlayerColor::Black } };
    assert_eq!(hub.take_outbox(&id("w")), vec![over.clone()]);
    assert_eq!(hub.take_outbox(&id("b")), vec![over]);
    hub.tick_at(700_000);
    assert!(hub.take_outbox(&id("w")).is_empty());
    hub.handle_message_at(&id("w"), mv("e2", "e4"), 700_000);
    assert_eq!(hub.take_outbox(&id("w")), vec![invalid("Game is over")]);
}

#[test]
fn move_after_time_runs_out_announces_timeout() {
    let mut hub = paired();
    hub.handle_message_at(&id("w"), mv("e2", "e4"), 601_000);
    let over = ServerMessage::GameOver { result: GameResult::Timeout { winner: PlayerColor::Black } };
    assert_eq!(hub.take_outbox(&id("w")), vec![over.clone()]);
    assert_eq!(hub.take_outbox(&id("b")), vec![over]);
}

#[test]
fn handle_message_reads_the_clock() {
    let mut hub = Hub::new();
    hub.connect(id("a"));
    hub.handle_message(&id("a"), create("NOW"));
    assert_eq!(hub.take_outbox(&id("a")).len(), 1);
    hub.tick();
}
