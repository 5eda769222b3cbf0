//! Turn-based game-move synchronization over a raw byte stream.
//!
//! The library is the verified core of a two-peer chess session: coordinate
//! transcoding between board indices, algebraic notation and wire pairs; a
//! binary codec for the three protocol messages; the framing logic that
//! tolerates partial reads; the handshake that assigns colors; and the
//! per-turn arbitration state machine.  All I/O, rendering, and the calls
//! into a rules engine live outside the library and hand it plain values.

pub mod board_text;
pub mod channel;
pub mod codec;
pub mod moves;
pub mod msg;
pub mod session;
pub mod transcode;
