use chess_rooms::protocol::{PlayerColor, ServerMessage};
use chess_rooms::rooms::{RoomError, RoomRegistry, TIME_CONTROL_MS};
use chess_rooms::sessions::SessionRegistry;

#[test]
fn rooms_create_join_and_find() {
    let mut rooms = RoomRegistry::new();
    assert_eq!(rooms.create_room("A".to_string(), "alice".to_string()), Ok(PlayerColor::White));
    assert_eq!(rooms.create_room("A".to_string(), "bob".to_string()), Err(RoomError::RoomCodeTaken));
    assert_eq!(rooms.join_room(&"B".to_string(), "bob".to_string(), 0), Err(RoomError::RoomNotFound));
    assert_eq!(rooms.join_room(&"A".to_string(), "bob".to_string(), 0), Ok((PlayerColor::Black, "alice".to_string())));
    assert_eq!(rooms.join_room(&"A".to_string(), "carol".to_string(), 0), Err(RoomError::RoomFull));
    assert_eq!(rooms.find_room_for(&"bob".to_string()), Some(("A".to_string(), PlayerColor::Black)));
    assert_eq!(rooms.find_room_for(&"carol".to_string()), None);
    assert_eq!(rooms.locate(&"alice".to_string()), Some((0, PlayerColor::White)));
    assert_eq!(rooms.players(0), (Some("alice".to_string()), Some("bob".to_string())));
    assert!(rooms.has_game(0));
    assert_eq!(rooms.len(), 1);
    assert_eq!(TIME_CONTROL_MS, 600_000);
}

#[test]
fn room_error_messages() {
    assert_eq!(RoomError::RoomCodeTaken.message(), "Room code already in use");
    assert_eq!(RoomError::RoomNotFound.message(), "Room not found");
    assert_eq!(RoomError::RoomFull.message(), "Room is full");
    assert_eq!(RoomError::AlreadyInRoom.message(), "Already in a room");
    assert_eq!(RoomError::UnknownParticipant.message(), "Not in a room");
    assert_eq!(RoomError::NoOpponent.message(), "Waiting for an opponent");
}

#[test]
fn sessions_keep_order_and_drop_on_unregister() {
    let mut s = SessionRegistry::new();
    assert!(s.register("a".to_string()));
    assert!(s.register("b".to_string()));
    assert!(!s.register("a".to_string()));
    s.send_to(&"a".to_string(), ServerMessage::OpponentJoined);
    s.send_to(&"b".to_string(), ServerMessage::OpponentLeft);
    s.send_to(&"a".to_string(), ServerMessage::OpponentLeft);
    s.send_to(&"nobody".to_string(), ServerMessage::OpponentLeft);
    assert_eq!(s.take_outbox(&"a".to_string()), vec![ServerMessage::OpponentJoined, ServerMessage::OpponentLeft]);
    assert!(s.take_outbox(&"a".to_string()).is_empty());
    s.unregister(&"b".to_string());
    assert!(!s.is_registered(&"b".to_string()));
    s.send_to(&"b".to_string(), ServerMessage::OpponentJoined);
    assert!(s.take_outbox(&"b".to_string()).is_empty());
    assert!(s.is_registered(&"a".to_string()));
}
