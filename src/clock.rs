//! The per-match pair of countdown clocks.

use vstd::prelude::*;
use crate::protocol::PlayerColor;

verus! {

/// Remaining time of each side, in milliseconds, and the instant of the last
/// event that the clock has accounted for.
#[derive(Debug, Clone, Copy, PartialEq, Eq, Structural)]
pub struct MatchClock {
    pub white_time_ms: u64,
    pub black_time_ms: u64,
    pub last_move_time: u64,
}

impl MatchClock {
    pub open spec fn remaining(self, side: PlayerColor) -> u64 {
        match side {
            PlayerColor::White => self.white_time_ms,
            PlayerColor::Black => self.black_time_ms,
        }
    }

    /// Time since the last accounted event; none if the wall clock went back.
    pub open spec fn elapsed(self, now: u64) -> u64 {
        if now >= self.last_move_time {
            (now - self.last_move_time) as u64
        } else {
            0
        }
    }

    /// Whether `side`, being to move, has no time left at `now`.
    pub open spec fn expires(self, side: PlayerColor, now: u64) -> bool {
        self.remaining(side) <= self.elapsed(now)
    }

    /// The clock after charging the time since the last event to `side`:
    /// an expired budget reads zero; otherwise the event time becomes `now`.
    pub open spec fn advanced(self, side: PlayerColor, now: u64) -> MatchClock {
        if self.expires(side, now) {
            match side {
                PlayerColor::White => MatchClock { white_time_ms: 0, ..self },
                PlayerColor::Black => MatchClock { black_time_ms: 0, ..self },
            }
        } else {
            let left = (self.remaining(side) - self.elapsed(now)) as u64;
            match side {
                PlayerColor::White => MatchClock {
                    white_time_ms: left,
                    last_move_time: now,
                    ..self
                },
                PlayerColor::Black => MatchClock {
                    black_time_ms: left,
                    last_move_time: now,
                    ..self
                },
            }
        }
    }

    pub open spec fn new_spec(time_control_ms: u64, now: u64) -> MatchClock {
        MatchClock { white_time_ms: time_control_ms, black_time_ms: time_control_ms, last_move_time: now }
    }

    /// Both sides start with `time_control_ms`, counted from `now`.
    pub fn new(time_control_ms: u64, now: u64) -> (r: MatchClock)
        ensures
            r == MatchClock::new_spec(time_control_ms, now),
    {
        MatchClock { white_time_ms: time_control_ms, black_time_ms: time_control_ms, last_move_time: now }
    }

    /// Charges the time elapsed until `now` to `side`, the side to move.
    /// Returns whether that side has run out of time.
    pub fn advance(&mut self, side: PlayerColor, now: u64) -> (expired: bool)
        ensures
            expired == old(self).expires(side, now),
            *final(self) == old(self).advanced(side, now),
    {
        let elapsed = now.saturating_sub(self.last_move_time);
        match side {
            PlayerColor::White => {
                if self.white_time_ms > elapsed {
                    self.white_time_ms = self.white_time_ms - elapsed;
                    self.last_move_time = now;
                    false
                } else {
                    self.white_time_ms = 0;
                    true
                }
            },
            PlayerColor::Black => {
                if self.black_time_ms > elapsed {
                    self.black_time_ms = self.black_time_ms - elapsed;
                    self.last_move_time = now;
                    false
                } else {
                    self.black_time_ms = 0;
                    true
                }
            },
        }
    }
}

/// A side that lets its whole budget elapse runs out of time, and its clock
/// then reads zero, never less; the other side's clock is untouched.
pub proof fn lemma_spent_budget_reads_zero(c: MatchClock, side: PlayerColor, now: u64)
    requires
        c.elapsed(now) >= c.remaining(side),
    ensures
        c.expires(side, now),
        c.advanced(side, now).remaining(side) == 0,
        c.advanced(side, now).remaining(side.other()) == c.remaining(side.other()),
{
}

/// Bringing the clock up to date never adds time to either side.
pub proof fn lemma_clock_never_increases(c: MatchClock, side: PlayerColor, now: u64)
    ensures
        c.advanced(side, now).white_time_ms <= c.white_time_ms,
        c.advanced(side, now).black_time_ms <= c.black_time_ms,
{
}

/// Relies on `std::time::SystemTime::now`: milliseconds since the Unix epoch,
/// or zero for a system clock set before it.
#[verifier::external_body]
pub(crate) fn now_ms() -> (r: u64) {
    match std::time::SystemTime::now().duration_since(std::time::UNIX_EPOCH) {
        Ok(d) => d.as_millis() as u64,
        Err(_) => 0,
    }
}

} // verus!
