//! The match session: the single authority over one match's position, move
//! log, clocks and outcome.

use vstd::prelude::*;
use crate::clock::{lemma_spent_budget_reads_zero, now_ms, MatchClock};
use crate::engine::{
    after, engine_apply, engine_legal, engine_piece_on, engine_side_to_move, engine_status,
    legal, legal_line, parse_promotion, parse_square, piece_at, promotion_of, reachable, replay,
    side_to_move_of, square_of, start_fen, start_position, status_of, text_of, well_formed_move,
    BoardStatus, EngineMove, PieceKind, Promotion,
};
use crate::protocol::{copy_log, log_view, GameResult, MessageView, MoveRecord, PlayerColor, RecordView, ServerMessage};

verus! {

/// Why a move or a resignation was refused.
#[derive(Debug, Clone, Copy, PartialEq, Eq, Structural)]
pub enum MoveError {
    NotYourTurn,
    MatchOver,
    /// The side to move had run out of time; the match is now over.
    OutOfTime { winner: PlayerColor },
    InvalidFromSquare,
    InvalidToSquare,
    IllegalMove,
}

pub open spec fn reason_text(e: MoveError) -> Seq<char> {
    match e {
        MoveError::NotYourTurn => "Not your turn"@,
        MoveError::MatchOver => "Game is over"@,
        MoveError::OutOfTime { .. } => "Out of time"@,
        MoveError::InvalidFromSquare => "Invalid from square"@,
        MoveError::InvalidToSquare => "Invalid to square"@,
        MoveError::IllegalMove => "Illegal move"@,
    }
}

impl MoveError {
    /// The text sent to the player whose request was refused.
    pub fn reason(&self) -> (r: String)
        ensures
            r@ == reason_text(*self),
    {
        match self {
            MoveError::NotYourTurn => String::from_str("Not your turn"),
            MoveError::MatchOver => String::from_str("Game is over"),
            MoveError::OutOfTime { .. } => String::from_str("Out of time"),
            MoveError::InvalidFromSquare => String::from_str("Invalid from square"),
            MoveError::InvalidToSquare => String::from_str("Invalid to square"),
            MoveError::IllegalMove => String::from_str("Illegal move"),
        }
    }
}

/// The piece letter that opens a move's notation; a pawn shows its file
/// when it captures.
pub open spec fn piece_prefix(piece: Option<PieceKind>, capture: bool, from: Seq<char>) -> Seq<char> {
    match piece {
        Some(PieceKind::King) => "K"@,
        Some(PieceKind::Queen) => "Q"@,
        Some(PieceKind::Rook) => "R"@,
        Some(PieceKind::Bishop) => "B"@,
        Some(PieceKind::Knight) => "N"@,
        Some(PieceKind::Pawn) => if capture {
            from.subrange(0, 1)
        } else {
            Seq::empty()
        },
        None => Seq::empty(),
    }
}

pub open spec fn promotion_suffix(promotion: Option<Promotion>) -> Seq<char> {
    match promotion {
        Some(Promotion::Queen) => "=Q"@,
        Some(Promotion::Rook) => "=R"@,
        Some(Promotion::Bishop) => "=B"@,
        Some(Promotion::Knight) => "=N"@,
        None => Seq::empty(),
    }
}

/// Short algebraic notation: piece letter, capture mark, destination square
/// and promotion. Checks and disambiguation are not marked.
pub open spec fn notation(
    piece: Option<PieceKind>,
    capture: bool,
    from: Seq<char>,
    to: Seq<char>,
    promotion: Option<Promotion>,
) -> Seq<char> {
    piece_prefix(piece, capture, from) + (if capture {
        "x"@
    } else {
        Seq::empty()
    }) + to.subrange(0, 2) + promotion_suffix(promotion)
}

/// The move that a request names, once both squares read.
pub open spec fn requested_move(from: Seq<char>, to: Seq<char>, promotion: Option<Seq<char>>) -> EngineMove {
    EngineMove {
        from: square_of(from)->0,
        to: square_of(to)->0,
        promotion: promotion_of(promotion),
    }
}

/// The outcome that ends a match in the given engine status, `mover` having
/// just moved: checkmate is won by the mover, stalemate is drawn.
pub open spec fn outcome_of(status: BoardStatus, mover: PlayerColor) -> Option<GameResult> {
    match status {
        BoardStatus::Ongoing => None,
        BoardStatus::Stalemate => Some(GameResult::Draw),
        BoardStatus::Checkmate => match mover {
            PlayerColor::White => Some(GameResult::WhiteWins),
            PlayerColor::Black => Some(GameResult::BlackWins),
        },
    }
}

pub open spec fn result_view(r: Result<String, MoveError>) -> Result<Seq<char>, MoveError> {
    match r {
        Ok(s) => Ok(s@),
        Err(e) => Err(e),
    }
}

/// One match in play or finished.
pub struct GameState {
    board: String,
    moves: Vec<MoveRecord>,
    clock: MatchClock,
    game_over: bool,
    result: Option<GameResult>,
    line: Ghost<Seq<EngineMove>>,
}

impl GameState {
    /// The current position, as FEN.
    pub closed spec fn fen(self) -> Seq<char> {
        self.board@
    }

    /// The move log, oldest first.
    pub closed spec fn log(self) -> Seq<RecordView> {
        log_view(self.moves@)
    }

    /// The moves played, as the engine saw them.
    pub closed spec fn line(self) -> Seq<EngineMove> {
        self.line@
    }

    pub closed spec fn clock(self) -> MatchClock {
        self.clock
    }

    pub closed spec fn over(self) -> bool {
        self.game_over
    }

    pub closed spec fn outcome(self) -> Option<GameResult> {
        self.result
    }

    pub closed spec fn wf(self) -> bool {
        &&& legal_line(self.line@)
        &&& replay(self.line@) == self.board@
        &&& self.moves@.len() == self.line@.len()
        &&& forall|i: int|
            0 <= i < self.line@.len() ==> {
                &&& well_formed_move(#[trigger] self.line@[i])
                &&& square_of(self.moves@[i].from@) == Some(self.line@[i].from)
                &&& square_of(self.moves@[i].to@) == Some(self.line@[i].to)
            }
        &&& (self.game_over <==> self.result is Some)
    }

    /// The side to move.
    pub open spec fn turn(self) -> PlayerColor {
        side_to_move_of(self.fen())
    }

    /// What a move request by `mover` yields: the notation of the move, or
    /// the first reason, in this order, to refuse it.
    pub open spec fn move_result(
        self,
        mover: PlayerColor,
        from: Seq<char>,
        to: Seq<char>,
        promotion: Option<Seq<char>>,
        now: u64,
    ) -> Result<Seq<char>, MoveError> {
        let m = requested_move(from, to, promotion);
        if mover != self.turn() {
            Err(MoveError::NotYourTurn)
        } else if self.over() {
            Err(MoveError::MatchOver)
        } else if self.clock().expires(self.turn(), now) {
            Err(MoveError::OutOfTime { winner: self.turn().other() })
        } else if square_of(from) is None {
            Err(MoveError::InvalidFromSquare)
        } else if square_of(to) is None {
            Err(MoveError::InvalidToSquare)
        } else if !legal(self.fen(), m) {
            Err(MoveError::IllegalMove)
        } else {
            Ok(
                notation(
                    piece_at(self.fen(), m.from),
                    piece_at(self.fen(), m.to) is Some,
                    from,
                    to,
                    m.promotion,
                ),
            )
        }
    }

    /// Same position, log and outcome; the clock may differ.
    pub open spec fn same_play(self, other: GameState) -> bool {
        &&& other.fen() == self.fen()
        &&& other.log() == self.log()
        &&& other.line() == self.line()
        &&& other.over() == self.over()
        &&& other.outcome() == self.outcome()
    }

    /// The session after the clock is brought up to `now`: the side to move
    /// is charged, and loses on time if its budget is spent.
    pub open spec fn ticked(self, next: GameState, now: u64) -> bool {
        if self.over() {
            next == self
        } else {
            &&& next.fen() == self.fen()
            &&& next.log() == self.log()
            &&& next.line() == self.line()
            &&& next.clock() == self.clock().advanced(self.turn(), now)
            &&& next.over() == self.clock().expires(self.turn(), now)
            &&& next.outcome() == if self.clock().expires(self.turn(), now) {
                Some(GameResult::Timeout { winner: self.turn().other() })
            } else {
                None
            }
        }
    }

    /// The session after a move request by `mover`, given what it yields.
    pub open spec fn moved(
        self,
        next: GameState,
        mover: PlayerColor,
        from: Seq<char>,
        to: Seq<char>,
        promotion: Option<Seq<char>>,
        now: u64,
    ) -> bool {
        let m = requested_move(from, to, promotion);
        let fen = after(self.fen(), m);
        match self.move_result(mover, from, to, promotion, now) {
            Err(MoveError::NotYourTurn) => next == self,
            Err(MoveError::MatchOver) => next == self,
            Err(MoveError::OutOfTime { .. }) => self.ticked(next, now),
            Err(_) => self.same_play(next) && next.clock() == self.clock().advanced(
                self.turn(),
                now,
            ),
            Ok(san) => {
                &&& next.fen() == fen
                &&& next.turn() == self.turn().other()
                &&& next.line() == self.line().push(m)
                &&& next.log() == self.log().push(
                    RecordView { san, from, to, timestamp: now },
                )
                &&& next.clock() == self.clock().advanced(self.turn(), now)
                &&& next.outcome() == outcome_of(status_of(fen), mover)
                &&& next.over() == (status_of(fen) != BoardStatus::Ongoing)
            },
        }
    }

    /// What a resignation by `who` yields.
    pub open spec fn resign_result(self, who: PlayerColor) -> Result<GameResult, MoveError> {
        if self.over() {
            Err(MoveError::MatchOver)
        } else {
            Ok(GameResult::Resignation { winner: who.other() })
        }
    }

    /// The session after a resignation by `who`: a finished match is left as
    /// it is; otherwise the other side wins and nothing else changes.
    pub open spec fn resigned(self, next: GameState, who: PlayerColor) -> bool {
        if self.over() {
            next == self
        } else {
            &&& next.over()
            &&& next.outcome() == Some(GameResult::Resignation { winner: who.other() })
            &&& next.fen() == self.fen()
            &&& next.log() == self.log()
            &&& next.line() == self.line()
            &&& next.clock() == self.clock()
        }
    }

    /// A match that has just started at `now` with `time_control_ms` a side.
    pub open spec fn fresh(self, time_control_ms: u64, now: u64) -> bool {
        &&& self.wf()
        &&& self.fen() == start_fen()
        &&& self.turn() == PlayerColor::White
        &&& self.log() == Seq::<RecordView>::empty()
        &&& self.line() == Seq::<EngineMove>::empty()
        &&& self.clock() == MatchClock::new_spec(time_control_ms, now)
        &&& !self.over()
        &&& self.outcome() is None
    }

    proof fn lemma_reachable(self)
        requires
            self.wf(),
        ensures
            reachable(self.board@),
    {
        assert(legal_line(self.line@) && replay(self.line@) == self.board@);
    }

    /// A new match from the initial position, each side with
    /// `time_control_ms`, its clock starting at `now`.
    pub fn new_at(time_control_ms: u64, now: u64) -> (r: GameState)
        ensures
            r.fresh(time_control_ms, now),
    {
        let r = GameState {
            board: start_position(),
            moves: Vec::new(),
            clock: MatchClock::new(time_control_ms, now),
            game_over: false,
            result: None,
            line: Ghost(Seq::empty()),
        };
        assert(r.log() =~= Seq::<RecordView>::empty());
        r
    }

    /// A new match whose clock starts at the current time.
    pub fn new(time_control_ms: u64) -> (r: GameState)
        ensures
            r.wf(),
            r.fen() == start_fen(),
            r.turn() == PlayerColor::White,
            r.log() == Seq::<RecordView>::empty(),
            r.line() == Seq::<EngineMove>::empty(),
            r.clock().white_time_ms == time_control_ms,
            r.clock().black_time_ms == time_control_ms,
            !r.over(),
            r.outcome() is None,
    {
        GameState::new_at(time_control_ms, now_ms())
    }

    /// Brings the clock of the side to move up to `now`; a spent budget ends
    /// the match on time. Returns whether this call ended it.
    pub fn update_time_at(&mut self, now: u64) -> (timed_out: bool)
        requires
            old(self).wf(),
        ensures
            final(self).wf(),
            old(self).ticked(*final(self), now),
            timed_out == (!old(self).over() && old(self).clock().expires(old(self).turn(), now)),
    {
        if self.game_over {
            return false;
        }
        proof {
            self.lemma_reachable();
        }
        let side = engine_side_to_move(&self.board);
        let expired = self.clock.advance(side, now);
        if expired {
            self.game_over = true;
            self.result = Some(GameResult::Timeout { winner: side.opponent() });
        }
        expired
    }

    /// Brings the clock up to the current time.
    pub fn update_time(&mut self)
        requires
            old(self).wf(),
        ensures
            final(self).wf(),
            exists|now: u64| old(self).ticked(*final(self), now),
    {
        let now = now_ms();
        self.update_time_at(now);
    }

    /// The notation of `m`, read against the current position.
    fn move_to_san(&self, m: EngineMove, from_str: &str, to_str: &str) -> (r: String)
        requires
            self.wf(),
            well_formed_move(m),
            square_of(from_str@) == Some(m.from),
            square_of(to_str@) == Some(m.to),
        ensures
            r@ == notation(
                piece_at(self.fen(), m.from),
                piece_at(self.fen(), m.to) is Some,
                from_str@,
                to_str@,
                m.promotion,
            ),
    {
        proof {
            self.lemma_reachable();
        }
        let piece = engine_piece_on(&self.board, m.from);
        let capture = engine_piece_on(&self.board, m.to).is_some();
        let mut san = String::new();
        match piece {
            Some(PieceKind::King) => san.append("K"),
            Some(PieceKind::Queen) => san.append("Q"),
            Some(PieceKind::Rook) => san.append("R"),
            Some(PieceKind::Bishop) => san.append("B"),
            Some(PieceKind::Knight) => san.append("N"),
            Some(PieceKind::Pawn) => {
                if capture {
                    san.append(from_str.substring_char(0, 1));
                }
            },
            None => {},
        }
        if capture {
            san.append("x");
        }
        san.append(to_str.substring_char(0, 2));
        match m.promotion {
            Some(Promotion::Queen) => san.append("=Q"),
            Some(Promotion::Rook) => san.append("=R"),
            Some(Promotion::Bishop) => san.append("=B"),
            Some(Promotion::Knight) => san.append("=N"),
            None => {},
        }
        assert(san@ =~= notation(
            piece_at(self.fen(), m.from),
            piece_at(self.fen(), m.to) is Some,
            from_str@,
            to_str@,
            m.promotion,
        ));
        san
    }

    /// Plays a move for `mover` at time `now`.
    ///
    /// Refused, in this order: when `mover` is not the side to move; when the
    /// match is over; when the side to move has run out of time (which ends
    /// the match); when a square does not read; when the engine rejects the
    /// move. A move that is played is logged, and ends the match if the engine
    /// reports checkmate or stalemate. Returns the move's notation.
    pub fn make_move_at(
        &mut self,
        mover: PlayerColor,
        from_str: &str,
        to_str: &str,
        promotion: Option<&str>,
        now: u64,
    ) -> (r: Result<String, MoveError>)
        requires
            old(self).wf(),
        ensures
            final(self).wf(),
            result_view(r) == old(self).move_result(mover, from_str@, to_str@, text_of(promotion), now),
            old(self).moved(*final(self), mover, from_str@, to_str@, text_of(promotion), now),
    {
        proof {
            self.lemma_reachable();
        }
        let side = engine_side_to_move(&self.board);
        if mover != side {
            return Err(MoveError::NotYourTurn);
        }
        if self.game_over {
            return Err(MoveError::MatchOver);
        }
        if self.update_time_at(now) {
            return Err(MoveError::OutOfTime { winner: side.opponent() });
        }
        let from = match parse_square(from_str) {
            Some(sq) => sq,
            None => return Err(MoveError::InvalidFromSquare),
        };
        let to = match parse_square(to_str) {
            Some(sq) => sq,
            None => return Err(MoveError::InvalidToSquare),
        };
        let m = EngineMove { from, to, promotion: parse_promotion(promotion) };
        proof {
            self.lemma_reachable();
        }
        if !engine_legal(&self.board, m) {
            return Err(MoveError::IllegalMove);
        }
        let san = self.move_to_san(m, from_str, to_str);
        let board = engine_apply(&self.board, m);
        let ghost line = self.line@.push(m);
        proof {
            assert(line.drop_last() =~= self.line@);
            assert(line.last() == m);
            assert(legal_line(line));
            assert(replay(line) == board@);
        }
        let status = engine_status(&board);
        let mut moves = copy_log(&self.moves);
        moves.push(
            MoveRecord {
                san: san.clone(),
                from: String::from_str(from_str),
                to: String::from_str(to_str),
                timestamp: now,
            },
        );
        let (game_over, result) = match status {
            BoardStatus::Ongoing => (false, None),
            BoardStatus::Stalemate => (true, Some(GameResult::Draw)),
            BoardStatus::Checkmate => match mover {
                PlayerColor::White => (true, Some(GameResult::WhiteWins)),
                PlayerColor::Black => (true, Some(GameResult::BlackWins)),
            },
        };
        proof {
            assert(log_view(moves@) =~= log_view(self.moves@).push(
                RecordView { san: san@, from: from_str@, to: to_str@, timestamp: now },
            ));
        }
        *self = GameState {
            board,
            moves,
            clock: self.clock,
            game_over,
            result,
            line: Ghost(line),
        };
        Ok(san)
    }

    /// Plays a move for `mover` at the current time; see [`Self::make_move_at`].
    pub fn make_move(
        &mut self,
        mover: PlayerColor,
        from_str: &str,
        to_str: &str,
        promotion: Option<&str>,
    ) -> (r: Result<String, MoveError>)
        requires
            old(self).wf(),
        ensures
            final(self).wf(),
            exists|now: u64|
                {
                    &&& result_view(r) == old(self).move_result(
                        mover,
                        from_str@,
                        to_str@,
                        text_of(promotion),
                        now,
                    )
                    &&& old(self).moved(
                        *final(self),
                        mover,
                        from_str@,
                        to_str@,
                        text_of(promotion),
                        now,
                    )
                },
    {
        let now = now_ms();
        self.make_move_at(mover, from_str, to_str, promotion, now)
    }

    /// `who` gives up: the other side wins, unless the match is already over.
    pub fn resign(&mut self, who: PlayerColor) -> (r: Result<GameResult, MoveError>)
        requires
            old(self).wf(),
        ensures
            final(self).wf(),
            r == old(self).resign_result(who),
            old(self).resigned(*final(self), who),
    {
        if self.game_over {
            return Err(MoveError::MatchOver);
        }
        let result = GameResult::Resignation { winner: who.opponent() };
        self.game_over = true;
        self.result = Some(result);
        Ok(result)
    }

    /// The state broadcast to both players at `now`. The clock of the side to
    /// move is shown as it would read after being brought up to `now`; the
    /// session itself is left as it is.
    pub open spec fn snapshot(self, now: u64) -> MessageView {
        let shown = if self.over() {
            self.clock()
        } else {
            self.clock().advanced(self.turn(), now)
        };
        MessageView::GameState {
            fen: self.fen(),
            moves: self.log(),
            white_time: shown.white_time_ms,
            black_time: shown.black_time_ms,
            current_turn: self.turn(),
        }
    }

    /// Builds the state message for both players at `now`.
    pub fn snapshot_at(&self, now: u64) -> (r: ServerMessage)
        requires
            self.wf(),
        ensures
            r@ == self.snapshot(now),
    {
        proof {
            self.lemma_reachable();
        }
        let side = engine_side_to_move(&self.board);
        let mut shown = self.clock;
        if !self.game_over {
            shown.advance(side, now);
        }
        ServerMessage::GameState {
            fen: self.board.clone(),
            moves: copy_log(&self.moves),
            white_time: shown.white_time_ms,
            black_time: shown.black_time_ms,
            current_turn: side,
        }
    }

    /// The current position, as FEN.
    pub fn get_fen(&self) -> (r: String)
        ensures
            r@ == self.fen(),
    {
        self.board.clone()
    }

    /// The side to move.
    pub fn current_turn(&self) -> (r: PlayerColor)
        requires
            self.wf(),
        ensures
            r == self.turn(),
    {
        proof {
            self.lemma_reachable();
        }
        engine_side_to_move(&self.board)
    }

    /// A copy of the move log.
    pub fn moves(&self) -> (r: Vec<MoveRecord>)
        ensures
            log_view(r@) == self.log(),
    {
        copy_log(&self.moves)
    }

    pub fn white_time_ms(&self) -> (r: u64)
        ensures
            r == self.clock().white_time_ms,
    {
        self.clock.white_time_ms
    }

    pub fn black_time_ms(&self) -> (r: u64)
        ensures
            r == self.clock().black_time_ms,
    {
        self.clock.black_time_ms
    }

    pub fn is_over(&self) -> (r: bool)
        ensures
            r == self.over(),
    {
        self.game_over
    }

    pub fn result(&self) -> (r: Option<GameResult>)
        ensures
            r == self.outcome(),
    {
        self.result
    }

    /// The position always equals the engine's replay of the moves played,
    /// each of which the engine accepted where it was played; the log holds
    /// one record per move, naming its squares.
    pub proof fn lemma_position_replays_log(self)
        requires
            self.wf(),
        ensures
            self.fen() == replay(self.line()),
            legal_line(self.line()),
            self.log().len() == self.line().len(),
            forall|i: int|
                0 <= i < self.line().len() ==> {
                    &&& square_of(#[trigger] self.log()[i].from) == Some(self.line()[i].from)
                    &&& square_of(self.log()[i].to) == Some(self.line()[i].to)
                },
            self.over() <==> self.outcome() is Some,
    {
    }

    /// A move by the side not to move is refused with `NotYourTurn` and
    /// leaves the session exactly as it was.
    pub proof fn lemma_wrong_side_refused(
        self,
        next: GameState,
        mover: PlayerColor,
        from: Seq<char>,
        to: Seq<char>,
        promotion: Option<Seq<char>>,
        now: u64,
    )
        requires
            mover != self.turn(),
            self.moved(next, mover, from, to, promotion, now),
        ensures
            self.move_result(mover, from, to, promotion, now) == Err::<Seq<char>, MoveError>(
                MoveError::NotYourTurn,
            ),
            next == self,
    {
    }

    /// When the side to move has let its whole budget elapse, bringing the
    /// clock up to date ends the match on time in the opponent's favour, and
    /// that side's clock reads zero.
    pub proof fn lemma_runs_out_of_time(self, next: GameState, now: u64)
        requires
            !self.over(),
            self.clock().elapsed(now) >= self.clock().remaining(self.turn()),
            self.ticked(next, now),
        ensures
            next.over(),
            next.outcome() == Some(GameResult::Timeout { winner: self.turn().other() }),
            next.clock().remaining(self.turn()) == 0,
            next.fen() == self.fen(),
    {
        lemma_spent_budget_reads_zero(self.clock(), self.turn(), now);
    }

    /// After a resignation the other side has won, and the match is over: a
    /// second resignation, or a move by the side to move, is refused with
    /// `MatchOver`.
    pub proof fn lemma_resigned_match_over(
        self,
        next: GameState,
        who: PlayerColor,
        again: PlayerColor,
        from: Seq<char>,
        to: Seq<char>,
        promotion: Option<Seq<char>>,
        now: u64,
    )
        requires
            !self.over(),
            self.resigned(next, who),
        ensures
            self.resign_result(who) == Ok::<GameResult, MoveError>(
                GameResult::Resignation { winner: who.other() },
            ),
            next.outcome() == Some(GameResult::Resignation { winner: who.other() }),
            next.resign_result(again) == Err::<GameResult, MoveError>(MoveError::MatchOver),
            next.move_result(next.turn(), from, to, promotion, now) == Err::<Seq<char>, MoveError>(
                MoveError::MatchOver,
            ),
    {
    }

    /// A finished match accepts no move, and a move request leaves it as it
    /// is.
    pub proof fn lemma_finished_refuses_moves(
        self,
        next: GameState,
        mover: PlayerColor,
        from: Seq<char>,
        to: Seq<char>,
        promotion: Option<Seq<char>>,
        now: u64,
    )
        requires
            self.over(),
            self.moved(next, mover, from, to, promotion, now),
        ensures
            self.move_result(mover, from, to, promotion, now) is Err,
            next == self,
    {
    }
}

} // verus!
