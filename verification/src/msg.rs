//! The three application messages the peers exchange: `Start` for the
//! handshake, `MoveMsg` for one ply, `Ack` for the receiving peer's verdict.
//! Metadata strings travel as raw bytes; the core never reads them.

use vstd::prelude::*;

verus! {

/// How a finished game ended, or `Active` while it has not.
#[derive(Clone, Copy, Debug, PartialEq, Eq, Structural)]
pub enum Status {
    Active,
    Checkmate,
    Stalemate,
    FiftyMoveRule,
    ThreefoldRepetition,
}

/// The piece a pawn is promoted to when a move carries a promotion.
#[derive(Clone, Copy, Debug, PartialEq, Eq, Structural)]
pub enum PieceKind {
    Pawn,
    Rook,
    Knight,
    Bishop,
    Queen,
    King,
}

/// The handshake proposal and its reply.  The proposer claims a color with
/// `is_white`; the optional name, starting position and clock fields are
/// carried on the wire but not consumed by the core.
#[derive(Clone, Debug)]
pub struct Start {
    pub is_white: bool,
    pub name: Option<Vec<u8>>,
    pub fen: Option<Vec<u8>>,
    pub time_ms: Option<u64>,
    pub inc_ms: Option<u64>,
}

/// The mathematical value of a `Start` message.
pub struct StartV {
    pub is_white: bool,
    pub name: Option<Seq<u8>>,
    pub fen: Option<Seq<u8>>,
    pub time_ms: Option<u64>,
    pub inc_ms: Option<u64>,
}

impl View for Start {
    type V = StartV;

    open spec fn view(&self) -> StartV {
        StartV {
            is_white: self.is_white,
            name: match self.name {
                Some(v) => Some(v@),
                None => None,
            },
            fen: match self.fen {
                Some(v) => Some(v@),
                None => None,
            },
            time_ms: self.time_ms,
            inc_ms: self.inc_ms,
        }
    }
}

/// One proposed ply: origin and destination as wire pairs, both parts of
/// each below 8.
#[derive(Clone, Copy, Debug, PartialEq, Eq)]
pub struct MoveMsg {
    pub from: (u8, u8),
    pub to: (u8, u8),
    pub offer_draw: bool,
    pub promotion: Option<PieceKind>,
    pub forfeit: bool,
}

/// The receiving peer's verdict on a move: `ok == false` means the move
/// was not applied; `end_state` optionally reports that the game is over.
#[derive(Clone, Copy, Debug, PartialEq, Eq, Structural)]
pub struct Ack {
    pub ok: bool,
    pub end_state: Option<Status>,
}

/// A `Start` message whose metadata fields fit their two-byte wire length.
pub open spec fn start_wf(m: StartV) -> bool {
    &&& match m.name {
        Some(s) => s.len() < 65536,
        None => true,
    }
    &&& match m.fen {
        Some(s) => s.len() < 65536,
        None => true,
    }
}

/// A move message whose coordinates lie on the board.
pub open spec fn move_wf(m: MoveMsg) -> bool {
    m.from.0 < 8 && m.from.1 < 8 && m.to.0 < 8 && m.to.1 < 8
}

} // verus!
