//! Wire-level data shared by the server and its clients.

use vstd::prelude::*;

verus! {

/// The two sides of a match. The room creator plays `White`.
#[derive(Debug, Clone, Copy, PartialEq, Eq, Structural)]
pub enum PlayerColor {
    White,
    Black,
}

impl PlayerColor {
    pub open spec fn other(self) -> PlayerColor {
        match self {
            PlayerColor::White => PlayerColor::Black,
            PlayerColor::Black => PlayerColor::White,
        }
    }

    /// The opposite side.
    pub fn opponent(self) -> (r: PlayerColor)
        ensures
            r == self.other(),
            r != self,
    {
        match self {
            PlayerColor::White => PlayerColor::Black,
            PlayerColor::Black => PlayerColor::White,
        }
    }
}

/// How a finished match ended.
#[derive(Debug, Clone, Copy, PartialEq, Eq, Structural)]
pub enum GameResult {
    WhiteWins,
    BlackWins,
    Draw,
    Resignation { winner: PlayerColor },
    Timeout { winner: PlayerColor },
}

/// One accepted move, as kept in a match's log.
#[derive(Debug, Clone, PartialEq, Eq)]
pub struct MoveRecord {
    /// Algebraic notation of the move.
    pub san: String,
    pub from: String,
    pub to: String,
    /// Milliseconds since the Unix epoch at which the move was accepted.
    pub timestamp: u64,
}

/// The mathematical content of a [`MoveRecord`].
pub struct RecordView {
    pub san: Seq<char>,
    pub from: Seq<char>,
    pub to: Seq<char>,
    pub timestamp: u64,
}

impl View for MoveRecord {
    type V = RecordView;

    open spec fn view(&self) -> RecordView {
        RecordView { san: self.san@, from: self.from@, to: self.to@, timestamp: self.timestamp }
    }
}

pub open spec fn log_view(log: Seq<MoveRecord>) -> Seq<RecordView> {
    log.map_values(|m: MoveRecord| m@)
}

impl MoveRecord {
    /// A field-by-field copy.
    pub fn copy(&self) -> (r: MoveRecord)
        ensures
            r@ == self@,
    {
        MoveRecord {
            san: self.san.clone(),
            from: self.from.clone(),
            to: self.to.clone(),
            timestamp: self.timestamp,
        }
    }
}

/// Copies a move log, keeping its order.
pub fn copy_log(log: &Vec<MoveRecord>) -> (r: Vec<MoveRecord>)
    ensures
        r@.len() == log@.len(),
        forall|i: int| 0 <= i < log@.len() ==> (#[trigger] r@[i])@ == log@[i]@,
log_view(r@) == log_view(log@),
{
    let mut out: Vec<MoveRecord> = Vec::new();
    let mut i: usize = 0;
    while i < log.len()
        invariant
            i <= log.len(),
            out@.len() == i,
            forall|j: int| 0 <= j < i ==> (#[trigger] out@[j])@ == log@[j]@,
        decreases log.len() - i,
    {
        out.push(log[i].copy());
        i = i + 1;
    }
assert(log_view(out@) =~= log_view(log@));
    out
}

/// A room: its code, chosen by its creator, and the identities of the two
/// players, the creator playing white.
#[derive(Debug, Clone, PartialEq, Eq)]
pub struct GameRoom {
    pub room_code: String,
    pub white_player: Option<String>,
    pub black_player: Option<String>,
}

/// The mathematical content of a [`GameRoom`].
pub struct RoomView {
    pub code: Seq<char>,
    pub white: Option<Seq<char>>,
    pub black: Option<Seq<char>>,
}

pub open spec fn opt_view(o: Option<String>) -> Option<Seq<char>> {
    match o {
        Some(s) => Some(s@),
        None => None,
    }
}

impl View for GameRoom {
    type V = RoomView;

    open spec fn view(&self) -> RoomView {
        RoomView {
            code: self.room_code@,
            white: opt_view(self.white_player),
            black: opt_view(self.black_player),
        }
    }
}

/// A message from a client.
#[derive(Debug, Clone, PartialEq, Eq)]
pub enum ClientMessage {
    CreateRoom { room_code: String },
    JoinRoom { room_code: String },
    MakeMove { from: String, to: String, promotion: Option<String> },
    Resign,
}

/// A message from the server to one client.
#[derive(Debug, Clone, PartialEq, Eq)]
pub enum ServerMessage {
    RoomCreated { room_code: String, player_color: PlayerColor },
    RoomJoined { room_code: String, player_color: PlayerColor },
    GameState {
        fen: String,
        moves: Vec<MoveRecord>,
        white_time: u64,
        black_time: u64,
        current_turn: PlayerColor,
    },
    MoveMade { from: String, to: String, san: String, fen: String },
    InvalidMove { reason: String },
    OpponentJoined,
    OpponentLeft,
    GameOver { result: GameResult },
    Error { message: String },
}

/// The mathematical content of a [`ServerMessage`].
pub enum MessageView {
    RoomCreated { room_code: Seq<char>, player_color: PlayerColor },
    RoomJoined { room_code: Seq<char>, player_color: PlayerColor },
    GameState {
        fen: Seq<char>,
        moves: Seq<RecordView>,
        white_time: u64,
        black_time: u64,
        current_turn: PlayerColor,
    },
    MoveMade { from: Seq<char>, to: Seq<char>, san: Seq<char>, fen: Seq<char> },
    InvalidMove { reason: Seq<char> },
    OpponentJoined,
    OpponentLeft,
    GameOver { result: GameResult },
    Error { message: Seq<char> },
}

pub open spec fn message_views(ms: Seq<ServerMessage>) -> Seq<MessageView> {
    ms.map_values(|m: ServerMessage| m@)
}

impl View for ServerMessage {
    type V = MessageView;

    open spec fn view(&self) -> MessageView {
        match self {
            ServerMessage::RoomCreated { room_code, player_color } => MessageView::RoomCreated {
                room_code: room_code@,
                player_color: *player_color,
            },
            ServerMessage::RoomJoined { room_code, player_color } => MessageView::RoomJoined {
                room_code: room_code@,
                player_color: *player_color,
            },
            ServerMessage::GameState { fen, moves, white_time, black_time, current_turn } => {
                MessageView::GameState {
                    fen: fen@,
                    moves: log_view(moves@),
                    white_time: *white_time,
                    black_time: *black_time,
                    current_turn: *current_turn,
                }
            },
            ServerMessage::MoveMade { from, to, san, fen } => MessageView::MoveMade {
                from: from@,
                to: to@,
                san: san@,
                fen: fen@,
            },
            ServerMessage::InvalidMove { reason } => MessageView::InvalidMove { reason: reason@ },
            ServerMessage::OpponentJoined => MessageView::OpponentJoined,
            ServerMessage::OpponentLeft => MessageView::OpponentLeft,
            ServerMessage::GameOver { result } => MessageView::GameOver { result: *result },
            ServerMessage::Error { message } => MessageView::Error { message: message@ },
        }
    }
}

impl ServerMessage {
    /// A copy with the same content, for delivery to a second recipient.
    pub fn copy(&self) -> (r: ServerMessage)
        ensures
            r@ == self@,
    {
        match self {
            ServerMessage::RoomCreated { room_code, player_color } => ServerMessage::RoomCreated {
                room_code: room_code.clone(),
                player_color: *player_color,
            },
            ServerMessage::RoomJoined { room_code, player_color } => ServerMessage::RoomJoined {
                room_code: room_code.clone(),
                player_color: *player_color,
            },
            ServerMessage::GameState { fen, moves, white_time, black_time, current_turn } => {
                ServerMessage::GameState {
                    fen: fen.clone(),
                    moves: copy_log(moves),
                    white_time: *white_time,
                    black_time: *black_time,
                    current_turn: *current_turn,
                }
            },
            ServerMessage::MoveMade { from, to, san, fen } => ServerMessage::MoveMade {
                from: from.clone(),
                to: to.clone(),
                san: san.clone(),
                fen: fen.clone(),
            },
            ServerMessage::InvalidMove { reason } => ServerMessage::InvalidMove {
                reason: reason.clone(),
            },
            ServerMessage::OpponentJoined => ServerMessage::OpponentJoined,
            ServerMessage::OpponentLeft => ServerMessage::OpponentLeft,
            ServerMessage::GameOver { result } => ServerMessage::GameOver { result: *result },
            ServerMessage::Error { message } => ServerMessage::Error { message: message.clone() },
        }
    }
}

} // verus!
