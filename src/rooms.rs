//! The room registry: pairs two connections under a room code and keeps the
//! match session of each paired room.

use vstd::prelude::*;
use crate::engine::text_of;
use crate::game::{result_view, GameState, MoveError};
use crate::protocol::{opt_view, GameResult, GameRoom, PlayerColor, RoomView, ServerMessage};

verus! {

/// Time each side starts a match with: ten minutes.
pub const TIME_CONTROL_MS: u64 = 600_000;

/// Why a room request was refused.
#[derive(Debug, Clone, Copy, PartialEq, Eq, Structural)]
pub enum RoomError {
    RoomCodeTaken,
    RoomNotFound,
    RoomFull,
    /// The connection already plays in a room.
    AlreadyInRoom,
    /// The connection plays in no room.
    UnknownParticipant,
    /// The room has no second player yet.
    NoOpponent,
}

pub open spec fn room_error_text(e: RoomError) -> Seq<char> {
    match e {
        RoomError::RoomCodeTaken => "Room code already in use"@,
        RoomError::RoomNotFound => "Room not found"@,
        RoomError::RoomFull => "Room is full"@,
        RoomError::AlreadyInRoom => "Already in a room"@,
        RoomError::UnknownParticipant => "Not in a room"@,
        RoomError::NoOpponent => "Waiting for an opponent"@,
    }
}

impl RoomError {
    /// The text sent to the connection whose request was refused.
    pub fn message(&self) -> (r: String)
        ensures
            r@ == room_error_text(*self),
    {
        match self {
            RoomError::RoomCodeTaken => String::from_str("Room code already in use"),
            RoomError::RoomNotFound => String::from_str("Room not found"),
            RoomError::RoomFull => String::from_str("Room is full"),
            RoomError::AlreadyInRoom => String::from_str("Already in a room"),
            RoomError::UnknownParticipant => String::from_str("Not in a room"),
            RoomError::NoOpponent => String::from_str("Waiting for an opponent"),
        }
    }
}

pub open spec fn code_taken(rooms: Seq<RoomView>, code: Seq<char>) -> bool {
    exists|i: int| 0 <= i < rooms.len() && #[trigger] rooms[i].code == code
}

/// The room that holds `code`, when some room does.
pub open spec fn code_index(rooms: Seq<RoomView>, code: Seq<char>) -> int {
    choose|i: int| 0 <= i < rooms.len() && #[trigger] rooms[i].code == code
}

pub open spec fn unique_codes(rooms: Seq<RoomView>) -> bool {
    forall|i: int, j: int|
        0 <= i < j < rooms.len() ==> #[trigger] rooms[i].code != #[trigger] rooms[j].code
}

/// What a request to create room `code` yields.
pub open spec fn create_result(rooms: Seq<RoomView>, code: Seq<char>) -> Result<PlayerColor, RoomError> {
    if code_taken(rooms, code) {
        Err(RoomError::RoomCodeTaken)
    } else {
        Ok(PlayerColor::White)
    }
}

/// The rooms after `id` creates room `code`.
pub open spec fn created(rooms: Seq<RoomView>, code: Seq<char>, id: Seq<char>) -> Seq<RoomView> {
    rooms.push(RoomView { code, white: Some(id), black: None })
}

/// What a request to join room `code` yields.
pub open spec fn join_result(rooms: Seq<RoomView>, code: Seq<char>) -> Result<PlayerColor, RoomError> {
    if !code_taken(rooms, code) {
        Err(RoomError::RoomNotFound)
    } else if rooms[code_index(rooms, code)].black is Some {
        Err(RoomError::RoomFull)
    } else {
        Ok(PlayerColor::Black)
    }
}

/// The rooms after `id` takes the free seat of room `code`.
pub open spec fn joined(rooms: Seq<RoomView>, code: Seq<char>, id: Seq<char>) -> Seq<RoomView> {
    let i = code_index(rooms, code);
    rooms.update(i, RoomView { black: Some(id), ..rooms[i] })
}

pub open spec fn seated(room: RoomView, id: Seq<char>) -> bool {
    room.white == Some(id) || room.black == Some(id)
}

pub open spec fn seat_color(room: RoomView, id: Seq<char>) -> PlayerColor {
    if room.white == Some(id) {
        PlayerColor::White
    } else {
        PlayerColor::Black
    }
}

/// The other player of `room`, seen from `id`.
pub open spec fn opponent_in(room: RoomView, id: Seq<char>) -> Option<Seq<char>> {
    if room.white == Some(id) {
        room.black
    } else {
        room.white
    }
}

pub open spec fn first_seat(rooms: Seq<RoomView>, id: Seq<char>, i: int) -> bool {
    &&& 0 <= i < rooms.len()
    &&& seated(rooms[i], id)
    &&& forall|j: int| 0 <= j < i ==> !seated(#[trigger] rooms[j], id)
}

/// The first room in which `id` plays.
pub open spec fn seat_of(rooms: Seq<RoomView>, id: Seq<char>) -> Option<int> {
    if exists|i: int| first_seat(rooms, id, i) {
        Some(choose|i: int| first_seat(rooms, id, i))
    } else {
        None
    }
}

/// No identity holds two seats: the two seats of a room differ, and no two
/// rooms seat the same identity.
pub open spec fn one_seat_each(rooms: Seq<RoomView>) -> bool {
    &&& forall|i: int| 0 <= i < rooms.len() ==> (#[trigger] rooms[i]).white != rooms[i].black
    &&& forall|i: int, j: int, id: Seq<char>|
        0 <= i < rooms.len() && 0 <= j < rooms.len() && #[trigger] seated(rooms[i], id)
            && #[trigger] seated(rooms[j], id) ==> i == j
}

proof fn lemma_first_seat_exists(rooms: Seq<RoomView>, id: Seq<char>, k: int)
    requires
        0 <= k < rooms.len(),
        seated(rooms[k], id),
    ensures
        exists|i: int| first_seat(rooms, id, i),
    decreases k,
{
    if exists|j: int| 0 <= j < k && seated(#[trigger] rooms[j], id) {
        let j = choose|j: int| 0 <= j < k && seated(#[trigger] rooms[j], id);
        lemma_first_seat_exists(rooms, id, j);
    } else {
        assert(first_seat(rooms, id, k));
    }
}

/// An identity for which no room is found sits in no room.
pub proof fn lemma_unseated(rooms: Seq<RoomView>, id: Seq<char>)
    requires
        seat_of(rooms, id) is None,
    ensures
        forall|i: int| 0 <= i < rooms.len() ==> !seated(#[trigger] rooms[i], id),
{
    assert forall|i: int| 0 <= i < rooms.len() implies !seated(#[trigger] rooms[i], id) by {
        if seated(rooms[i], id) {
            lemma_first_seat_exists(rooms, id, i);
        }
    }
}

/// Where each identity holds at most one seat, the room found for an
/// identity is the one room that seats it.
pub proof fn lemma_seat_found(rooms: Seq<RoomView>, id: Seq<char>, c: int)
    requires
        one_seat_each(rooms),
        0 <= c < rooms.len(),
        seated(rooms[c], id),
    ensures
        seat_of(rooms, id) == Some(c),
{
    assert forall|j: int| 0 <= j < c implies !seated(#[trigger] rooms[j], id) by {
        if seated(rooms[j], id) {
            assert(seated(rooms[c], id));
        }
    }
    assert(first_seat(rooms, id, c));
    let k = choose|k: int| first_seat(rooms, id, k);
    assert(seated(rooms[k], id));
}

/// Of two requests to create the same free code, the first creates the room
/// and the second is refused with `RoomCodeTaken`, whoever sends them.
pub proof fn lemma_same_code_twice(rooms: Seq<RoomView>, code: Seq<char>, first: Seq<char>)
    requires
        !code_taken(rooms, code),
    ensures
        create_result(rooms, code) == Ok::<PlayerColor, RoomError>(PlayerColor::White),
        create_result(created(rooms, code, first), code) == Err::<PlayerColor, RoomError>(
            RoomError::RoomCodeTaken,
        ),
{
    let next = created(rooms, code, first);
    assert(next[rooms.len() as int].code == code);
}

/// Once a second player has joined, any further join of the room is refused
/// with `RoomFull`; the pairing made stays (a refused join changes nothing).
pub proof fn lemma_paired_room_full(rooms: Seq<RoomView>, code: Seq<char>, second: Seq<char>)
    requires
        unique_codes(rooms),
        join_result(rooms, code) == Ok::<PlayerColor, RoomError>(PlayerColor::Black),
    ensures
        join_result(joined(rooms, code, second), code) == Err::<PlayerColor, RoomError>(
            RoomError::RoomFull,
        ),
        joined(rooms, code, second)[code_index(rooms, code)].white == rooms[code_index(
            rooms,
            code,
        )].white,
        joined(rooms, code, second)[code_index(rooms, code)].black == Some(second),
{
    let i = code_index(rooms, code);
    let next = joined(rooms, code, second);
    assert(next[i].code == code);
    let j = code_index(next, code);
    if j != i {
        assert(next[j].code == rooms[j].code);
        if j < i {
            assert(rooms[j].code != rooms[i].code);
        } else {
            assert(rooms[i].code != rooms[j].code);
        }
    }
}

struct Table {
    room: GameRoom,
    game: Option<GameState>,
}

/// The rooms by code, each with its match session once two players sit in it.
pub struct RoomRegistry {
    tables: Vec<Table>,
}

impl RoomRegistry {
    pub closed spec fn rooms(&self) -> Seq<RoomView> {
        self.tables@.map_values(|t: Table| t.room@)
    }

    pub closed spec fn games(&self) -> Seq<Option<GameState>> {
        self.tables@.map_values(|t: Table| t.game)
    }

    pub closed spec fn wf(&self) -> bool {
        &&& unique_codes(self.rooms())
        &&& one_seat_each(self.rooms())
        &&& forall|i: int|
            0 <= i < self.tables@.len() ==> {
                &&& (#[trigger] self.tables@[i]).room.white_player is Some
                &&& (self.tables@[i].game is Some <==> self.tables@[i].room.black_player is Some)
                &&& (self.tables@[i].game is Some ==> self.tables@[i].game->0.wf())
            }
    }

    /// What every registry keeps true.
    pub proof fn lemma_wf(&self)
        requires
            self.wf(),
        ensures
            unique_codes(self.rooms()),
            one_seat_each(self.rooms()),
            self.games().len() == self.rooms().len(),
            forall|i: int|
                0 <= i < self.rooms().len() ==> {
                    &&& (#[trigger] self.rooms()[i]).white is Some
                    &&& (self.games()[i] is Some <==> self.rooms()[i].black is Some)
                    &&& (self.games()[i] is Some ==> self.games()[i]->0.wf())
                },
    {
    }

    pub fn new() -> (r: RoomRegistry)
        ensures
            r.wf(),
            r.rooms() == Seq::<RoomView>::empty(),
            r.games() == Seq::<Option<GameState>>::empty(),
    {
        let r = RoomRegistry { tables: Vec::new() };
        assert(r.rooms() =~= Seq::<RoomView>::empty());
        assert(r.games() =~= Seq::<Option<GameState>>::empty());
        r
    }

    /// The position of the room with `code`.
    pub fn find_code(&self, code: &String) -> (r: Option<usize>)
        requires
            self.wf(),
        ensures
            match r {
                Some(i) => i < self.rooms().len() && self.rooms()[i as int].code == code@
                    && code_index(self.rooms(), code@) == i,
                None => !code_taken(self.rooms(), code@),
            },
    {
        let mut i: usize = 0;
        while i < self.tables.len()
            invariant
                self.wf(),
                i <= self.tables@.len(),
                forall|j: int| 0 <= j < i ==> self.rooms()[j].code != code@,
            decreases self.tables@.len() - i,
        {
            if self.tables[i].room.room_code == *code {
                proof {
                    let k = code_index(self.rooms(), code@);
                    assert(self.rooms()[i as int].code == code@);
                    assert(unique_codes(self.rooms()));
                    if k != i {
                        if k < i {
                            assert(self.rooms()[k].code != self.rooms()[i as int].code);
                        } else {
                            assert(self.rooms()[i as int].code != self.rooms()[k].code);
                        }
                    }
                }
                return Some(i);
            }
            i = i + 1;
        }
        None
    }

    /// Opens room `code` with `requester` as white, unless the code is in use.
    pub fn create_room(&mut self, code: String, requester: String) -> (r: Result<
        PlayerColor,
        RoomError,
    >)
        requires
            old(self).wf(),
            seat_of(old(self).rooms(), requester@) is None,
        ensures
            final(self).wf(),
            r == create_result(old(self).rooms(), code@),
            r is Ok ==> final(self).rooms() == created(old(self).rooms(), code@, requester@)
                && final(self).games() == old(self).games().push(None),
            r is Err ==> *final(self) == *old(self),
    {
        if self.find_code(&code).is_some() {
            return Err(RoomError::RoomCodeTaken);
        }
        let ghost (c, id) = (code@, requester@);
        let room = GameRoom { room_code: code, white_player: Some(requester), black_player: None };
        self.tables.push(Table { room, game: None });
        assert(self.rooms() =~= created(old(self).rooms(), c, id));
        assert(self.games() =~= old(self).games().push(None));
        proof {
            let before = old(self).rooms();
            let after = self.rooms();
            lemma_unseated(before, id);
            assert forall|i: int, j: int, x: Seq<char>|
                0 <= i < after.len() && 0 <= j < after.len() && #[trigger] seated(after[i], x)
                    && #[trigger] seated(after[j], x) implies i == j by {
                if i < before.len() && j < before.len() {
                    assert(seated(before[i], x) && seated(before[j], x));
                } else if i < before.len() {
                    assert(seated(before[i], id));
                } else if j < before.len() {
                    assert(seated(before[j], id));
                }
            }
            assert forall|i: int| 0 <= i < after.len() implies (#[trigger] after[i]).white
                != after[i].black by {
                if i < before.len() {
                    assert(after[i] == before[i]);
                }
            }
        }
        Ok(PlayerColor::White)
    }

    /// Seats `requester` as black in room `code` and starts the room's match
    /// at `now`. Returns the seat's color and the identity of white, who is
    /// to be told.
    pub fn join_room(&mut self, code: &String, requester: String, now: u64) -> (r: Result<
        (PlayerColor, String),
        RoomError,
    >)
        requires
            old(self).wf(),
            seat_of(old(self).rooms(), requester@) is None,
        ensures
            final(self).wf(),
            match r {
                Ok((c, white)) => {
                    let i = code_index(old(self).rooms(), code@);
                    &&& join_result(old(self).rooms(), code@) == Ok::<PlayerColor, RoomError>(c)
                    &&& old(self).rooms()[i].white == Some(white@)
                    &&& final(self).rooms() == joined(old(self).rooms(), code@, requester@)
                    &&& final(self).games().len() == old(self).games().len()
                    &&& final(self).games()[i] is Some
                    &&& final(self).games()[i]->0.fresh(TIME_CONTROL_MS, now)
                    &&& forall|j: int|
                        0 <= j < old(self).games().len() && j != i ==> final(self).games()[j]
                            == old(self).games()[j]
                },
                Err(e) => join_result(old(self).rooms(), code@) == Err::<PlayerColor, RoomError>(e)
                    && *final(self) == *old(self),
            },
    {
        let i = match self.find_code(code) {
            Some(i) => i,
            None => return Err(RoomError::RoomNotFound),
        };
        if self.tables[i].room.black_player.is_some() {
            return Err(RoomError::RoomFull);
        }
        let white = match &self.tables[i].room.white_player {
            Some(w) => w.clone(),
            None => return Err(RoomError::RoomNotFound),
        };
        let ghost id = requester@;
        let ghost before = self.tables@;
        let game = GameState::new_at(TIME_CONTROL_MS, now);
        let table = &mut self.tables[i];
        table.room.black_player = Some(requester);
        table.game = Some(game);
        assert(self.rooms() =~= joined(old(self).rooms(), code@, id));
        proof {
            let before = old(self).rooms();
            let after = self.rooms();
            let ii = i as int;
            lemma_unseated(before, id);
            assert(seated(before[ii], before[ii].white->0));
            assert forall|a: int, b: int, x: Seq<char>|
                0 <= a < after.len() && 0 <= b < after.len() && #[trigger] seated(after[a], x)
                    && #[trigger] seated(after[b], x) implies a == b by {
                if x == id {
                    if a != ii {
                        assert(seated(before[a], id));
                    }
                    if b != ii {
                        assert(seated(before[b], id));
                    }
                } else {
                    assert(seated(before[a], x));
                    assert(seated(before[b], x));
                }
            }
            assert forall|a: int| 0 <= a < after.len() implies (#[trigger] after[a]).white
                != after[a].black by {
                if a != ii {
                    assert(after[a] == before[a]);
                }
            }
        }
        assert(forall|j: int| 0 <= j < before.len() && j != i ==> self.tables@[j] == before[j]);
        Ok((PlayerColor::Black, white))
    }

    /// The room in which `id` plays, and its color there.
    pub fn locate(&self, id: &String) -> (r: Option<(usize, PlayerColor)>)
        requires
            self.wf(),
        ensures
            match r {
                Some((i, c)) => seat_of(self.rooms(), id@) == Some(i as int) && c == seat_color(
                    self.rooms()[i as int],
                    id@,
                ),
                None => seat_of(self.rooms(), id@) is None,
            },
    {
        let mut i: usize = 0;
        while i < self.tables.len()
            invariant
                i <= self.tables@.len(),
                forall|j: int| 0 <= j < i ==> !seated(#[trigger] self.rooms()[j], id@),
            decreases self.tables@.len() - i,
        {
            let room = &self.tables[i].room;
            let as_white = match &room.white_player {
                Some(w) => *w == *id,
                None => false,
            };
            let as_black = match &room.black_player {
                Some(b) => *b == *id,
                None => false,
            };
            if as_white || as_black {
                proof {
                    assert(first_seat(self.rooms(), id@, i as int));
                    let k = choose|k: int| first_seat(self.rooms(), id@, k);
                    if k < i {
                        assert(!seated(self.rooms()[k], id@));
                    }
                    if k > i {
                        assert(!seated(self.rooms()[i as int], id@));
                    }
                }
                let c = if as_white {
                    PlayerColor::White
                } else {
                    PlayerColor::Black
                };
                return Some((i, c));
            }
            i = i + 1;
        }
        None
    }

    /// The code of the room in which `id` plays, and its color there.
    pub fn find_room_for(&self, id: &String) -> (r: Option<(String, PlayerColor)>)
        requires
            self.wf(),
        ensures
            match r {
                Some((code, c)) => {
                    &&& seat_of(self.rooms(), id@) is Some
                    &&& code@ == self.rooms()[seat_of(self.rooms(), id@)->0].code
                    &&& c == seat_color(self.rooms()[seat_of(self.rooms(), id@)->0], id@)
                },
                None => seat_of(self.rooms(), id@) is None,
            },
    {
        match self.locate(id) {
            Some((i, c)) => Some((self.tables[i].room.room_code.clone(), c)),
            None => None,
        }
    }

    /// Copies of the identities seated in room `i`.
    pub fn players(&self, i: usize) -> (r: (Option<String>, Option<String>))
        requires
            i < self.rooms().len(),
        ensures
            opt_view(r.0) == self.rooms()[i as int].white,
            opt_view(r.1) == self.rooms()[i as int].black,
    {
        let room = &self.tables[i].room;
        let white = match &room.white_player {
            Some(w) => Some(w.clone()),
            None => None,
        };
        let black = match &room.black_player {
            Some(b) => Some(b.clone()),
            None => None,
        };
        (white, black)
    }

    /// The registry after the match of room `i` changed to `g`.
    pub open spec fn game_changed(self, next: RoomRegistry, i: int, g: GameState) -> bool {
        &&& next.rooms() == self.rooms()
        &&& next.games() == self.games().update(i, Some(g))
    }

    /// Plays a move for `mover` in the match of room `i`.
    pub fn play(
        &mut self,
        i: usize,
        mover: PlayerColor,
        from: &str,
        to: &str,
        promotion: Option<&str>,
        now: u64,
    ) -> (r: Result<String, MoveError>)
        requires
            old(self).wf(),
            i < old(self).rooms().len(),
            old(self).games()[i as int] is Some,
        ensures
            final(self).wf(),
            ({
                let g = old(self).games()[i as int]->0;
                &&& result_view(r) == g.move_result(mover, from@, to@, text_of(promotion), now)
                &&& final(self).games()[i as int] is Some
                &&& g.moved(final(self).games()[i as int]->0, mover, from@, to@, text_of(promotion), now)
                &&& old(self).game_changed(*final(self), i as int, final(self).games()[i as int]->0)
            }),
    {
        let ghost before = self.tables@;
        let table = &mut self.tables[i];
        let r = match &mut table.game {
            Some(g) => g.make_move_at(mover, from, to, promotion, now),
            None => Err(MoveError::MatchOver),
        };
        assert(self.rooms() =~= old(self).rooms());
        assert(self.games() =~= old(self).games().update(i as int, self.games()[i as int]));
        r
    }

    /// Resigns for `who` in the match of room `i`.
    pub fn resign_in(&mut self, i: usize, who: PlayerColor) -> (r: Result<GameResult, MoveError>)
        requires
            old(self).wf(),
            i < old(self).rooms().len(),
            old(self).games()[i as int] is Some,
        ensures
            final(self).wf(),
            ({
                let g = old(self).games()[i as int]->0;
                &&& r == g.resign_result(who)
                &&& final(self).games()[i as int] is Some
                &&& g.resigned(final(self).games()[i as int]->0, who)
                &&& old(self).game_changed(*final(self), i as int, final(self).games()[i as int]->0)
            }),
    {
        let table = &mut self.tables[i];
        let r = match &mut table.game {
            Some(g) => g.resign(who),
            None => Err(MoveError::MatchOver),
        };
        assert(self.rooms() =~= old(self).rooms());
        assert(self.games() =~= old(self).games().update(i as int, self.games()[i as int]));
        r
    }

    /// Brings the clock of room `i`'s match, if it has one, up to `now`.
    /// Returns whether the match has just ended on time.
    pub fn tick_room(&mut self, i: usize, now: u64) -> (timed_out: bool)
        requires
            old(self).wf(),
            i < old(self).rooms().len(),
        ensures
            final(self).wf(),
            match old(self).games()[i as int] {
                Some(g) => {
                    &&& timed_out == (!g.over() && g.clock().expires(g.turn(), now))
                    &&& final(self).games()[i as int] is Some
                    &&& g.ticked(final(self).games()[i as int]->0, now)
                    &&& old(self).game_changed(*final(self), i as int, final(self).games()[i as int]->0)
                },
                None => !timed_out && *final(self) == *old(self),
            },
    {
        if self.tables[i].game.is_none() {
            return false;
        }
        let table = &mut self.tables[i];
        let r = match &mut table.game {
            Some(g) => g.update_time_at(now),
            None => false,
        };
        assert(self.rooms() =~= old(self).rooms());
        assert(self.games() =~= old(self).games().update(i as int, self.games()[i as int]));
        r
    }

    /// The state message of room `i`'s match at `now`.
    pub fn snapshot_of(&self, i: usize, now: u64) -> (r: ServerMessage)
        requires
            self.wf(),
            i < self.rooms().len(),
            self.games()[i as int] is Some,
        ensures
            r@ == self.games()[i as int]->0.snapshot(now),
    {
        match &self.tables[i].game {
            Some(g) => g.snapshot_at(now),
            None => ServerMessage::OpponentLeft,
        }
    }

    /// The position of room `i`'s match, as FEN.
    pub fn fen_of(&self, i: usize) -> (r: String)
        requires
            self.wf(),
            i < self.rooms().len(),
            self.games()[i as int] is Some,
        ensures
            r@ == self.games()[i as int]->0.fen(),
    {
        match &self.tables[i].game {
            Some(g) => g.get_fen(),
            None => String::new(),
        }
    }

    /// How room `i`'s match ended, if it has.
    pub fn outcome_in(&self, i: usize) -> (r: Option<GameResult>)
        requires
            self.wf(),
            i < self.rooms().len(),
            self.games()[i as int] is Some,
        ensures
            r == self.games()[i as int]->0.outcome(),
    {
        match &self.tables[i].game {
            Some(g) => g.result(),
            None => None,
        }
    }

    pub fn len(&self) -> (r: usize)
        ensures
            r == self.rooms().len(),
    {
        self.tables.len()
    }

    pub fn has_game(&self, i: usize) -> (r: bool)
        requires
            i < self.rooms().len(),
        ensures
            r == self.games()[i as int] is Some,
    {
        self.tables[i].game.is_some()
    }
}

} // verus!
