//! A two-player chess match server core: room pairing, per-match clocks,
//! authoritative match sessions backed by a rules engine, and an ordered
//! message dispatcher between connections.

pub mod protocol;
pub mod engine;
pub mod clock;
pub mod game;
pub mod sessions;
pub mod rooms;
pub mod dispatch;
