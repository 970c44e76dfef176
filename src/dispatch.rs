//! The dispatcher: routes each client message to the room registry and the
//! match sessions, and queues the replies and broadcasts it causes.

use vstd::prelude::*;
use crate::clock::now_ms;
use crate::engine::text_of;
use crate::game::{reason_text, GameState, MoveError};
use crate::protocol::{
    message_views, opt_view, ClientMessage, GameResult, MessageView, PlayerColor, RoomView, ServerMessage,
};
use crate::rooms::{
    code_index, code_taken, create_result, created, first_seat, join_result, joined,
    lemma_same_code_twice, lemma_seat_found, one_seat_each, opponent_in, room_error_text,
    seat_color, seat_of, seated, unique_codes, RoomError, RoomRegistry, TIME_CONTROL_MS,
};
use crate::sessions::{delivered, registered, Outboxes, SessionRegistry};

verus! {

/// `m` queued for each player of `room`, white first.
pub open spec fn broadcast_to(s: Outboxes, room: RoomView, m: MessageView) -> Outboxes {
    let s1 = match room.white {
        Some(w) => delivered(s, w, m),
        None => s,
    };
    match room.black {
        Some(b) => delivered(s1, b, m),
        None => s1,
    }
}

/// The messages that a clock tick at `now` queues, room by room, for the
/// first `n` rooms: a match that runs out of time is announced to both
/// players.
pub open spec fn tick_deliveries(
    s: Outboxes,
    rooms: Seq<RoomView>,
    games: Seq<Option<GameState>>,
    now: u64,
    n: nat,
) -> Outboxes
    decreases n,
{
    if n == 0 {
        s
    } else {
        let s1 = tick_deliveries(s, rooms, games, now, (n - 1) as nat);
        let i = n - 1;
        match games[i] {
            Some(g) => if !g.over() && g.clock().expires(g.turn(), now) {
                broadcast_to(
                    s1,
                    rooms[i],
                    MessageView::GameOver { result: GameResult::Timeout { winner: g.turn().other() } },
                )
            } else {
                s1
            },
            None => s1,
        }
    }
}

/// The server's shared state: rooms with their matches, and one outbound
/// queue per connection.
pub struct Hub {
    rooms: RoomRegistry,
    sessions: SessionRegistry,
}

impl Hub {
    pub closed spec fn rooms(&self) -> Seq<RoomView> {
        self.rooms.rooms()
    }

    pub closed spec fn games(&self) -> Seq<Option<GameState>> {
        self.rooms.games()
    }

    pub closed spec fn outboxes(&self) -> Outboxes {
        self.sessions@
    }

    pub closed spec fn wf(&self) -> bool {
        self.rooms.wf() && self.sessions.wf()
    }

    /// `conn`'s request is refused with `e`: only `conn` hears of it.
    pub open spec fn refused(self, next: Hub, conn: Seq<char>, e: RoomError) -> bool {
        &&& next.rooms() == self.rooms()
        &&& next.games() == self.games()
        &&& next.outboxes() == delivered(
            self.outboxes(),
            conn,
            MessageView::Error { message: room_error_text(e) },
        )
    }

    pub open spec fn create_step(self, next: Hub, conn: Seq<char>, code: Seq<char>) -> bool {
        if seat_of(self.rooms(), conn) is Some {
            self.refused(next, conn, RoomError::AlreadyInRoom)
        } else {
            match create_result(self.rooms(), code) {
                Err(e) => self.refused(next, conn, e),
                Ok(c) => {
                    &&& next.rooms() == created(self.rooms(), code, conn)
                    &&& next.games() == self.games().push(None)
                    &&& next.outboxes() == delivered(
                        self.outboxes(),
                        conn,
                        MessageView::RoomCreated { room_code: code, player_color: c },
                    )
                },
            }
        }
    }

    pub open spec fn join_step(self, next: Hub, conn: Seq<char>, code: Seq<char>, now: u64) -> bool {
        if seat_of(self.rooms(), conn) is Some {
            self.refused(next, conn, RoomError::AlreadyInRoom)
        } else {
            match join_result(self.rooms(), code) {
                Err(e) => self.refused(next, conn, e),
                Ok(c) => {
                    let i = code_index(self.rooms(), code);
                    let white = self.rooms()[i].white->0;
                    let s1 = delivered(
                        self.outboxes(),
                        conn,
                        MessageView::RoomJoined { room_code: code, player_color: c },
                    );
                    let s2 = delivered(s1, white, MessageView::OpponentJoined);
                    &&& next.rooms() == joined(self.rooms(), code, conn)
                    &&& next.games().len() == self.games().len()
                    &&& next.games()[i] is Some
                    &&& next.games()[i]->0.fresh(TIME_CONTROL_MS, now)
                    &&& forall|j: int|
                        0 <= j < self.games().len() && j != i ==> next.games()[j] == self.games()[j]
                    &&& next.outboxes() == broadcast_to(
                        s2,
                        next.rooms()[i],
                        next.games()[i]->0.snapshot(now),
                    )
                },
            }
        }
    }

    pub open spec fn move_step(
        self,
        next: Hub,
        conn: Seq<char>,
        from: Seq<char>,
        to: Seq<char>,
        promotion: Option<Seq<char>>,
        now: u64,
    ) -> bool {
        match seat_of(self.rooms(), conn) {
            None => self.refused(next, conn, RoomError::UnknownParticipant),
            Some(i) => if self.games()[i] is None {
                self.refused(next, conn, RoomError::NoOpponent)
            } else {
                let g = self.games()[i]->0;
                let c = seat_color(self.rooms()[i], conn);
                let room = self.rooms()[i];
                let g2 = next.games()[i]->0;
                &&& next.rooms() == self.rooms()
                &&& next.games()[i] is Some
                &&& next.games() == self.games().update(i, Some(g2))
                &&& g.moved(g2, c, from, to, promotion, now)
                &&& next.outboxes() == match g.move_result(c, from, to, promotion, now) {
                    Ok(san) => {
                        let s1 = broadcast_to(
                            self.outboxes(),
                            room,
                            MessageView::MoveMade { from, to, san, fen: g2.fen() },
                        );
                        let s2 = broadcast_to(s1, room, g2.snapshot(now));
                        if g2.over() {
                            broadcast_to(s2, room, MessageView::GameOver { result: g2.outcome()->0 })
                        } else {
                            s2
                        }
                    },
                    Err(MoveError::OutOfTime { winner }) => broadcast_to(
                        self.outboxes(),
                        room,
                        MessageView::GameOver { result: GameResult::Timeout { winner } },
                    ),
                    Err(e) => delivered(
                        self.outboxes(),
                        conn,
                        MessageView::InvalidMove { reason: reason_text(e) },
                    ),
                }
            },
        }
    }

    pub open spec fn resign_step(self, next: Hub, conn: Seq<char>) -> bool {
        match seat_of(self.rooms(), conn) {
            None => self.refused(next, conn, RoomError::UnknownParticipant),
            Some(i) => if self.games()[i] is None {
                self.refused(next, conn, RoomError::NoOpponent)
            } else {
                let g = self.games()[i]->0;
                let c = seat_color(self.rooms()[i], conn);
                let g2 = next.games()[i]->0;
                &&& next.rooms() == self.rooms()
                &&& next.games()[i] is Some
                &&& next.games() == self.games().update(i, Some(g2))
                &&& g.resigned(g2, c)
                &&& next.outboxes() == match g.resign_result(c) {
                    Ok(result) => broadcast_to(
                        self.outboxes(),
                        self.rooms()[i],
                        MessageView::GameOver { result },
                    ),
                    Err(e) => delivered(
                        self.outboxes(),
                        conn,
                        MessageView::InvalidMove { reason: reason_text(e) },
                    ),
                }
            },
        }
    }

    /// The hub after `conn` sends `msg` at `now`.
    pub open spec fn step(self, next: Hub, conn: Seq<char>, msg: ClientMessage, now: u64) -> bool {
        match msg {
            ClientMessage::CreateRoom { room_code } => self.create_step(next, conn, room_code@),
            ClientMessage::JoinRoom { room_code } => self.join_step(next, conn, room_code@, now),
            ClientMessage::MakeMove { from, to, promotion } => self.move_step(
                next,
                conn,
                from@,
                to@,
                opt_view(promotion),
                now,
            ),
            ClientMessage::Resign => self.resign_step(next, conn),
        }
    }

    pub fn new() -> (r: Hub)
        ensures
            r.wf(),
            r.rooms() == Seq::<RoomView>::empty(),
            r.games() == Seq::<Option<GameState>>::empty(),
            r.outboxes() == Seq::<(Seq<char>, Seq<MessageView>)>::empty(),
    {
        Hub { rooms: RoomRegistry::new(), sessions: SessionRegistry::new() }
    }

    /// Opens the outbound queue of a newly accepted connection. Returns
    /// `false`, changing nothing, if the identity is already connected.
    pub fn connect(&mut self, conn: String) -> (r: bool)
        requires
            old(self).wf(),
        ensures
            final(self).wf(),
            final(self).rooms() == old(self).rooms(),
            final(self).games() == old(self).games(),
            r == !registered(old(self).outboxes(), conn@),
            r ==> final(self).outboxes() == old(self).outboxes().push(
                (conn@, Seq::<MessageView>::empty()),
            ),
            !r ==> final(self).outboxes() == old(self).outboxes(),
    {
        self.sessions.register(conn)
    }

    /// Hands over the messages queued for `conn`, oldest first.
    pub fn take_outbox(&mut self, conn: &String) -> (r: Vec<ServerMessage>)
        requires
            old(self).wf(),
        ensures
            final(self).wf(),
            final(self).rooms() == old(self).rooms(),
            final(self).games() == old(self).games(),
            !registered(old(self).outboxes(), conn@) ==> r@.len() == 0 && final(self).outboxes()
                == old(self).outboxes(),
            forall|i: int|
                0 <= i < old(self).outboxes().len() && (#[trigger] old(self).outboxes()[i]).0 == conn@
                    ==> {
                    &&& message_views(r@) == old(self).outboxes()[i].1
                    &&& final(self).outboxes() == old(self).outboxes().update(
                        i,
                        (conn@, Seq::<MessageView>::empty()),
                    )
                },
    {
        self.sessions.take_outbox(conn)
    }

    /// The code of the room in which `conn` plays, and its color there.
    pub fn find_room_for(&self, conn: &String) -> (r: Option<(String, PlayerColor)>)
        requires
            self.wf(),
        ensures
            match r {
                Some((code, c)) => {
                    &&& seat_of(self.rooms(), conn@) is Some
                    &&& code@ == self.rooms()[seat_of(self.rooms(), conn@)->0].code
                    &&& c == seat_color(self.rooms()[seat_of(self.rooms(), conn@)->0], conn@)
                },
                None => seat_of(self.rooms(), conn@) is None,
            },
    {
        self.rooms.find_room_for(conn)
    }

    fn refuse(&mut self, conn: &String, e: RoomError)
        requires
            old(self).wf(),
        ensures
            final(self).wf(),
            old(self).refused(*final(self), conn@, e),
    {
        self.sessions.send_to(conn, ServerMessage::Error { message: e.message() });
    }

    /// Queues `msg` for both players of room `i`, white first.
    pub fn broadcast(&mut self, i: usize, msg: ServerMessage)
        requires
            old(self).wf(),
            i < old(self).rooms().len(),
        ensures
            final(self).wf(),
            final(self).rooms() == old(self).rooms(),
            final(self).games() == old(self).games(),
            final(self).outboxes() == broadcast_to(
                old(self).outboxes(),
                old(self).rooms()[i as int],
                msg@,
            ),
    {
        let (white, black) = self.rooms.players(i);
        match white {
            Some(w) => self.sessions.send_to(&w, msg.copy()),
            None => {},
        }
        match black {
            Some(b) => self.sessions.send_to(&b, msg),
            None => {},
        }
    }

    fn create(&mut self, conn: &String, code: String)
        requires
            old(self).wf(),
        ensures
            final(self).wf(),
            old(self).create_step(*final(self), conn@, code@),
    {
        if self.rooms.locate(conn).is_some() {
            self.refuse(conn, RoomError::AlreadyInRoom);
            return;
        }
        let reply_code = code.clone();
        match self.rooms.create_room(code, conn.clone()) {
            Ok(color) => {
                self.sessions.send_to(
                    conn,
                    ServerMessage::RoomCreated { room_code: reply_code, player_color: color },
                );
            },
            Err(e) => self.refuse(conn, e),
        }
    }

    fn join(&mut self, conn: &String, code: String, now: u64)
        requires
            old(self).wf(),
        ensures
            final(self).wf(),
            old(self).join_step(*final(self), conn@, code@, now),
    {
        if self.rooms.locate(conn).is_some() {
            self.refuse(conn, RoomError::AlreadyInRoom);
            return;
        }
        let i = match self.rooms.find_code(&code) {
            Some(i) => i,
            None => {
                self.refuse(conn, RoomError::RoomNotFound);
                return;
            },
        };
        match self.rooms.join_room(&code, conn.clone(), now) {
            Ok((color, white)) => {
                self.sessions.send_to(
                    conn,
                    ServerMessage::RoomJoined { room_code: code, player_color: color },
                );
                self.sessions.send_to(&white, ServerMessage::OpponentJoined);
                let snapshot = self.rooms.snapshot_of(i, now);
                self.broadcast(i, snapshot);
            },
            Err(e) => self.refuse(conn, e),
        }
    }

    fn play(
        &mut self,
        conn: &String,
        from: String,
        to: String,
        promotion: Option<String>,
        now: u64,
    )
        requires
            old(self).wf(),
        ensures
            final(self).wf(),
            old(self).move_step(*final(self), conn@, from@, to@, opt_view(promotion), now),
    {
        let (i, color) = match self.rooms.locate(conn) {
            Some(seat) => seat,
            None => {
                self.refuse(conn, RoomError::UnknownParticipant);
                return;
            },
        };
        if !self.rooms.has_game(i) {
            self.refuse(conn, RoomError::NoOpponent);
            return;
        }
        let promo: Option<&str> = match &promotion {
            Some(p) => Some(p.as_str()),
            None => None,
        };
        match self.rooms.play(i, color, from.as_str(), to.as_str(), promo, now) {
            Ok(san) => {
                proof {
                    self.rooms.lemma_wf();
                    self.games()[i as int]->0.lemma_position_replays_log();
                }
                let fen = self.rooms.fen_of(i);
                self.broadcast(i, ServerMessage::MoveMade { from, to, san, fen });
                let snapshot = self.rooms.snapshot_of(i, now);
                self.broadcast(i, snapshot);
                match self.rooms.outcome_in(i) {
                    Some(result) => self.broadcast(i, ServerMessage::GameOver { result }),
                    None => {},
                }
            },
            Err(MoveError::OutOfTime { winner }) => {
                self.broadcast(
                    i,
                    ServerMessage::GameOver { result: GameResult::Timeout { winner } },
                );
            },
            Err(e) => {
                self.sessions.send_to(conn, ServerMessage::InvalidMove { reason: e.reason() });
            },
        }
    }

    fn resign(&mut self, conn: &String)
        requires
            old(self).wf(),
        ensures
            final(self).wf(),
            old(self).resign_step(*final(self), conn@),
    {
        let (i, color) = match self.rooms.locate(conn) {
            Some(seat) => seat,
            None => {
                self.refuse(conn, RoomError::UnknownParticipant);
                return;
            },
        };
        if !self.rooms.has_game(i) {
            self.refuse(conn, RoomError::NoOpponent);
            return;
        }
        match self.rooms.resign_in(i, color) {
            Ok(result) => self.broadcast(i, ServerMessage::GameOver { result }),
            Err(e) => {
                self.sessions.send_to(conn, ServerMessage::InvalidMove { reason: e.reason() });
            },
        }
    }

    /// Acts on a message from `conn` received at `now`.
    pub fn handle_message_at(&mut self, conn: &String, msg: ClientMessage, now: u64)
        requires
            old(self).wf(),
        ensures
            final(self).wf(),
            old(self).step(*final(self), conn@, msg, now),
    {
        match msg {
            ClientMessage::CreateRoom { room_code } => self.create(conn, room_code),
            ClientMessage::JoinRoom { room_code } => self.join(conn, room_code, now),
            ClientMessage::MakeMove { from, to, promotion } => self.play(
                conn,
                from,
                to,
                promotion,
                now,
            ),
            ClientMessage::Resign => self.resign(conn),
        }
    }

    /// Acts on a message from `conn` received now.
    pub fn handle_message(&mut self, conn: &String, msg: ClientMessage)
        requires
            old(self).wf(),
        ensures
            final(self).wf(),
            exists|now: u64| old(self).step(*final(self), conn@, msg, now),
    {
        let now = now_ms();
        self.handle_message_at(conn, msg, now);
    }

    /// The queues once the opponent of `conn`, if any, is told it left.
    pub open spec fn leave_notified(self, conn: Seq<char>) -> Outboxes {
        match seat_of(self.rooms(), conn) {
            Some(i) => match opponent_in(self.rooms()[i], conn) {
                Some(o) => delivered(self.outboxes(), o, MessageView::OpponentLeft),
                None => self.outboxes(),
            },
            None => self.outboxes(),
        }
    }

    /// The hub after `conn` closes: its opponent, if any, is told once; its
    /// queue is dropped; rooms and matches stay as they are.
    pub open spec fn disconnected(self, next: Hub, conn: Seq<char>) -> bool {
        let s1 = self.leave_notified(conn);
        &&& next.rooms() == self.rooms()
        &&& next.games() == self.games()
        &&& !registered(next.outboxes(), conn)
        &&& !registered(s1, conn) ==> next.outboxes() == s1
        &&& forall|k: int|
            0 <= k < s1.len() && (#[trigger] s1[k]).0 == conn ==> next.outboxes() == s1.remove(k)
    }

    /// Closes `conn`.
    pub fn disconnect(&mut self, conn: &String)
        requires
            old(self).wf(),
        ensures
            final(self).wf(),
            old(self).disconnected(*final(self), conn@),
    {
        match self.rooms.locate(conn) {
            Some((i, color)) => {
                let (white, black) = self.rooms.players(i);
                let opponent = match color {
                    PlayerColor::White => black,
                    PlayerColor::Black => white,
                };
                match opponent {
                    Some(o) => self.sessions.send_to(&o, ServerMessage::OpponentLeft),
                    None => {},
                }
            },
            None => {},
        }
        self.sessions.unregister(conn);
    }

    /// Brings every match's clock up to `now`, announcing each match that
    /// runs out of time to both of its players.
    pub fn tick_at(&mut self, now: u64)
        requires
            old(self).wf(),
        ensures
            final(self).wf(),
            final(self).rooms() == old(self).rooms(),
            final(self).games().len() == old(self).games().len(),
            forall|j: int|
                0 <= j < old(self).games().len() ==> match #[trigger] old(self).games()[j] {
                    Some(g) => final(self).games()[j] is Some && g.ticked(
                        final(self).games()[j]->0,
                        now,
                    ),
                    None => final(self).games()[j] is None,
                },
            final(self).outboxes() == tick_deliveries(
                old(self).outboxes(),
                old(self).rooms(),
                old(self).games(),
                now,
                old(self).rooms().len() as nat,
            ),
    {
        proof {
            self.rooms.lemma_wf();
        }
        let n = self.rooms.len();
        let mut i: usize = 0;
        while i < n
            invariant
                self.wf(),
                n == old(self).rooms().len(),
                i <= n,
                self.rooms() == old(self).rooms(),
                self.games().len() == old(self).games().len(),
                forall|j: int|
                    0 <= j < i ==> match #[trigger] old(self).games()[j] {
                        Some(g) => self.games()[j] is Some && g.ticked(self.games()[j]->0, now),
                        None => self.games()[j] is None,
                    },
                forall|j: int| i <= j < n ==> #[trigger] self.games()[j] == old(self).games()[j],
                self.outboxes() == tick_deliveries(
                    old(self).outboxes(),
                    old(self).rooms(),
                    old(self).games(),
                    now,
                    i as nat,
                ),
            decreases n - i,
        {
            proof {
                self.rooms.lemma_wf();
            }
            let ghost before = self.games();
            let timed_out = self.rooms.tick_room(i, now);
            if timed_out {
                proof {
                    self.rooms.lemma_wf();
                    assert(self.rooms()[i as int].white is Some);
                    self.games()[i as int]->0.lemma_position_replays_log();
                }
                match self.rooms.outcome_in(i) {
                    Some(result) => self.broadcast(i, ServerMessage::GameOver { result }),
                    None => {},
                }
            }
            proof {
                assert(before[i as int] == old(self).games()[i as int]);
                assert forall|j: int| 0 <= j < i + 1 implies match #[trigger] old(
                    self,
                ).games()[j] {
                    Some(g) => self.games()[j] is Some && g.ticked(self.games()[j]->0, now),
                    None => self.games()[j] is None,
                } by {
                    if j < i {
                        assert(self.games()[j] == before[j]);
                    }
                }
                assert forall|j: int| i + 1 <= j < n implies #[trigger] self.games()[j] == old(
                    self,
                ).games()[j] by {
                    assert(self.games()[j] == before[j]);
                }
            }
            i = i + 1;
        }
    }

    /// Brings every match's clock up to the current time; see
    /// [`Self::tick_at`].
    pub fn tick(&mut self)
        requires
            old(self).wf(),
        ensures
            final(self).wf(),
            final(self).rooms() == old(self).rooms(),
            exists|now: u64|
                {
                    &&& final(self).games().len() == old(self).games().len()
                    &&& forall|j: int|
                        0 <= j < old(self).games().len() ==> match #[trigger] old(self).games()[j] {
                            Some(g) => final(self).games()[j] is Some && g.ticked(
                                final(self).games()[j]->0,
                                now,
                            ),
                            None => final(self).games()[j] is None,
                        }
                    &&& final(self).outboxes() == tick_deliveries(
                        old(self).outboxes(),
                        old(self).rooms(),
                        old(self).games(),
                        now,
                        old(self).rooms().len() as nat,
                    )
                },
    {
        let now = now_ms();
        self.tick_at(now);
    }

    /// What every hub keeps true: room codes are unique, each connection
    /// holds at most one seat, and each paired room has a well-formed match.
    pub proof fn lemma_wf(self)
        requires
            self.wf(),
        ensures
            unique_codes(self.rooms()),
            one_seat_each(self.rooms()),
            self.games().len() == self.rooms().len(),
            forall|i: int|
                0 <= i < self.rooms().len() ==> {
                    &&& (#[trigger] self.rooms()[i]).white is Some
                    &&& (self.games()[i] is Some <==> self.rooms()[i].black is Some)
                    &&& (self.games()[i] is Some ==> self.games()[i]->0.wf())
                },
    {
        self.rooms.lemma_wf();
    }

    /// A move sent by a player of room `c` whose side is not to move is
    /// answered with `InvalidMove` to that player alone: no room, match,
    /// clock or other queue changes.
    pub proof fn lemma_wrong_side_only_rejected(
        self,
        next: Hub,
        conn: Seq<char>,
        c: int,
        from: Seq<char>,
        to: Seq<char>,
        promotion: Option<Seq<char>>,
        now: u64,
    )
        requires
            self.wf(),
            0 <= c < self.rooms().len(),
            seated(self.rooms()[c], conn),
            self.games()[c] is Some,
            seat_color(self.rooms()[c], conn) != self.games()[c]->0.turn(),
            self.move_step(next, conn, from, to, promotion, now),
        ensures
            next.rooms() == self.rooms(),
            next.games() == self.games(),
            next.outboxes() == delivered(
                self.outboxes(),
                conn,
                MessageView::InvalidMove { reason: "Not your turn"@ },
            ),
    {
        self.rooms.lemma_wf();
        lemma_seat_found(self.rooms(), conn, c);
        let g = self.games()[c]->0;
        let color = seat_color(self.rooms()[c], conn);
        g.lemma_wrong_side_refused(next.games()[c]->0, color, from, to, promotion, now);
        assert(next.games()[c] == self.games()[c]);
        assert(next.games() =~= self.games());
    }

    /// A request to join room `c` when both its seats are taken, from a
    /// connection that plays in no room, is refused with `RoomFull` to that
    /// connection alone; the rooms and matches stay as they are.
    pub proof fn lemma_full_room_refuses_join(self, next: Hub, conn: Seq<char>, c: int, now: u64)
        requires
            self.wf(),
            0 <= c < self.rooms().len(),
            self.rooms()[c].black is Some,
            forall|i: int| 0 <= i < self.rooms().len() ==> !seated(#[trigger] self.rooms()[i], conn),
            self.join_step(next, conn, self.rooms()[c].code, now),
        ensures
            next.rooms() == self.rooms(),
            next.games() == self.games(),
            next.outboxes() == delivered(
                self.outboxes(),
                conn,
                MessageView::Error { message: "Room is full"@ },
            ),
    {
        self.rooms.lemma_wf();
        let rooms = self.rooms();
        let code = rooms[c].code;
        assert(code_taken(rooms, code));
        let k = code_index(rooms, code);
        if k != c {
            if k < c {
                assert(rooms[k].code != rooms[c].code);
            } else {
                assert(rooms[c].code != rooms[k].code);
            }
        }
        assert(seat_of(rooms, conn) is None);
    }

    /// A resignation by a player of room `c` whose match is still on ends it
    /// with the other side winning, announced once to both players; once the
    /// match is over, a resignation is refused to its sender alone and the
    /// match is kept as it is.
    pub proof fn lemma_resignation_announced(self, next: Hub, conn: Seq<char>, c: int)
        requires
            self.wf(),
            0 <= c < self.rooms().len(),
            seated(self.rooms()[c], conn),
            self.games()[c] is Some,
            self.resign_step(next, conn),
        ensures
            next.rooms() == self.rooms(),
            next.games()[c] is Some,
            !self.games()[c]->0.over() ==> {
                let winner = seat_color(self.rooms()[c], conn).other();
                &&& next.games()[c]->0.over()
                &&& next.games()[c]->0.outcome() == Some(GameResult::Resignation { winner })
                &&& next.outboxes() == broadcast_to(
                    self.outboxes(),
                    self.rooms()[c],
                    MessageView::GameOver { result: GameResult::Resignation { winner } },
                )
            },
            self.games()[c]->0.over() ==> {
                &&& next.games() == self.games()
                &&& next.outboxes() == delivered(
                    self.outboxes(),
                    conn,
                    MessageView::InvalidMove { reason: "Game is over"@ },
                )
            },
    {
        self.rooms.lemma_wf();
        lemma_seat_found(self.rooms(), conn, c);
        if self.games()[c]->0.over() {
            assert(next.games()[c] == self.games()[c]);
            assert(next.games() =~= self.games());
        }
    }

    /// When a player of room `c` disconnects, its opponent's queue receives
    /// exactly one `OpponentLeft` behind what it held; every other
    /// connection's queue is kept, and the rooms and matches are unchanged.
    pub proof fn lemma_disconnect_tells_opponent_once(
        self,
        next: Hub,
        conn: Seq<char>,
        c: int,
        other: Seq<char>,
    )
        requires
            self.wf(),
            0 <= c < self.rooms().len(),
            seated(self.rooms()[c], conn),
            opponent_in(self.rooms()[c], conn) == Some(other),
            self.disconnected(next, conn),
        ensures
            next.rooms() == self.rooms(),
            next.games() == self.games(),
            other != conn,
            forall|k: int|
                0 <= k < self.outboxes().len() && (#[trigger] self.outboxes()[k]).0 == other
                    ==> exists|k2: int|
                    0 <= k2 < next.outboxes().len() && next.outboxes()[k2] == (
                        other,
                        self.outboxes()[k].1.push(MessageView::OpponentLeft),
                    ),
            forall|k: int|
                0 <= k < self.outboxes().len() && (#[trigger] self.outboxes()[k]).0 != other
                    && self.outboxes()[k].0 != conn ==> exists|k2: int|
                    0 <= k2 < next.outboxes().len() && next.outboxes()[k2] == self.outboxes()[k],
    {
        self.rooms.lemma_wf();
        lemma_seat_found(self.rooms(), conn, c);
        assert(self.rooms()[c].white != self.rooms()[c].black);
        let s0 = self.outboxes();
        let s1 = self.leave_notified(conn);
        assert(s1 == delivered(s0, other, MessageView::OpponentLeft));
        assert forall|k: int| 0 <= k < s0.len() && (#[trigger] s0[k]).0 != conn implies exists|
            k2: int,
        | 0 <= k2 < next.outboxes().len() && next.outboxes()[k2] == s1[k] by {
            if registered(s1, conn) {
                let kc = choose|kc: int| 0 <= kc < s1.len() && #[trigger] s1[kc].0 == conn;
                assert(next.outboxes() == s1.remove(kc));
                if k < kc {
                    assert(next.outboxes()[k] == s1[k]);
                } else {
                    assert(next.outboxes()[k - 1] == s1[k]);
                }
            } else {
                assert(next.outboxes()[k] == s1[k]);
            }
        }
    }

    /// Two requests to create the same free code, from two connections that
    /// play in no room, however they race: the first served is answered
    /// `RoomCreated` and the second `RoomCodeTaken`; one room results.
    pub proof fn lemma_racing_creates(
        self,
        mid: Hub,
        next: Hub,
        first: Seq<char>,
        second: Seq<char>,
        code: Seq<char>,
    )
        requires
            !code_taken(self.rooms(), code),
            forall|i: int| 0 <= i < self.rooms().len() ==> !seated(#[trigger] self.rooms()[i], first),
            forall|i: int|
                0 <= i < self.rooms().len() ==> !seated(#[trigger] self.rooms()[i], second),
            first != second,
            self.create_step(mid, first, code),
            mid.create_step(next, second, code),
        ensures
            mid.rooms() == created(self.rooms(), code, first),
            mid.outboxes() == delivered(
                self.outboxes(),
                first,
                MessageView::RoomCreated { room_code: code, player_color: PlayerColor::White },
            ),
            next.rooms() == mid.rooms(),
            next.games() == mid.games(),
            next.outboxes() == delivered(
                mid.outboxes(),
                second,
                MessageView::Error { message: "Room code already in use"@ },
            ),
    {
        lemma_same_code_twice(self.rooms(), code, first);
        assert(seat_of(self.rooms(), first) is None);
        let new_rooms = created(self.rooms(), code, first);
        assert forall|i: int| !first_seat(new_rooms, second, i) by {
            if 0 <= i < self.rooms().len() {
                assert(new_rooms[i] == self.rooms()[i]);
            }
        }
    }
}

} // verus!
