//! The two-peer session: the handshake that assigns colors, and the
//! per-turn arbitration that keeps both peers' mirrored game state in
//! step.  The rules engine stays outside the library; every function here
//! takes what was read back from it — the info string and the
//! game-over code — as plain arguments and is verified for every value of
//! them.

use vstd::prelude::*;
use crate::transcode::Color;
use crate::msg::{Start, Status, Ack};
use crate::board_text::{row, turn_of_info, board_of_info, parse_boardinfo};

verus! {

/// The other player's color.
pub open spec fn opposite(c: Color) -> Color {
    match c {
        Color::White => Color::Black,
        Color::Black => Color::White,
        Color::Vacant => Color::Vacant,
    }
}

/// The color a peer assigns itself on learning which color the other peer
/// holds: the complement of the other's claim.
pub open spec fn color_against(their_is_white: bool) -> Color {
    if their_is_white {
        Color::Black
    } else {
        Color::White
    }
}

/// The listener's half of the handshake: given the initiator's proposal,
/// it claims the complementary color, answers with that claim and its own
/// name, and computes its local color.
pub fn listener_reply(their: &Start, name: Option<Vec<u8>>) -> (r: (Start, Color))
    ensures
        r.0.is_white == !their.is_white,
        r.0@.name == (match name {
            Some(ref v) => Some(v@),
            None => None::<Seq<u8>>,
        }),
        r.0.fen is None && r.0.time_ms is None && r.0.inc_ms is None,
        r.1 == color_against(their.is_white),
{
    let my_color = if their.is_white {
        Color::Black
    } else {
        Color::White
    };
    let reply = Start { is_white: !their.is_white, name, fen: None, time_ms: None, inc_ms: None };
    (reply, my_color)
}

/// The initiator's opening proposal: it always claims White and sends its
/// name along.
pub fn initiator_propose(name: Option<Vec<u8>>) -> (r: Start)
    ensures
        r.is_white == true,
        r@.name == (match name {
            Some(ref v) => Some(v@),
            None => None::<Seq<u8>>,
        }),
        r.fen is None && r.time_ms is None && r.inc_ms is None,
{
    Start { is_white: true, name, fen: None, time_ms: None, inc_ms: None }
}

/// The initiator's half of the handshake: the listener's reply settles the
/// initiator's local color as the complement of the reply's claim.
pub fn initiator_color(reply: &Start) -> (r: Color)
    ensures
        r == color_against(reply.is_white),
{
    if reply.is_white {
        Color::Black
    } else {
        Color::White
    }
}

/// Handshake symmetry: whatever color the initiator proposes, the listener
/// answers with the complementary claim, so the initiator ends up with the
/// color it proposed and the two peers' local colors are opposite.
pub proof fn lemma_handshake_symmetry(proposed_is_white: bool)
    ensures
        ({
            let listener_local = color_against(proposed_is_white);
            let initiator_local = color_against(!proposed_is_white);
            &&& initiator_local == (if proposed_is_white {
                Color::White
            } else {
                Color::Black
            })
            &&& listener_local == opposite(initiator_local)
        }),
{
}

/// Which role the turn arbiter is in: moving, waiting for the other peer's
/// move, or done.
#[derive(Clone, Copy, Debug, PartialEq, Eq, Structural)]
pub enum ArbiterState {
    AwaitingLocalMove,
    AwaitingRemoteMove,
    GameOver,
}

/// One peer's mirror of the game: its own color, whose turn it is, the
/// terminal status, and the piece placement as last read back from the
/// rules engine (rows inverted for rendering).
pub struct Session {
    pub my_color: Color,
    pub turn: Color,
    pub status: Status,
    pub board_str: String,
}

/// A session between two players: both tracked colors are real colors.
pub open spec fn session_wf(s: Session) -> bool {
    &&& (s.my_color == Color::White || s.my_color == Color::Black)
    &&& (s.turn == Color::White || s.turn == Color::Black)
}

impl Session {
    /// The arbiter state this session is in: the game is over once the
    /// status is terminal; otherwise the local player moves exactly when
    /// the turn color is its own.
    pub open spec fn spec_state(&self) -> ArbiterState {
        if self.status != Status::Active {
            ArbiterState::GameOver
        } else if self.turn == self.my_color {
            ArbiterState::AwaitingLocalMove
        } else {
            ArbiterState::AwaitingRemoteMove
        }
    }

    /// Computes the arbiter state.
    pub fn state(&self) -> (r: ArbiterState)
        ensures
            r == self.spec_state(),
    {
        match self.status {
            Status::Active => {
                if self.turn == self.my_color {
                    ArbiterState::AwaitingLocalMove
                } else {
                    ArbiterState::AwaitingRemoteMove
                }
            },
            _ => ArbiterState::GameOver,
        }
    }

    /// Opens a session right after the handshake: White is to move, the
    /// game is active, and the placement is whatever the freshly
    /// initialized engine reported.  The local player moves first exactly
    /// when it is White.
    pub fn new_session(my_color: Color, board_str: String) -> (r: Session)
        requires
            my_color == Color::White || my_color == Color::Black,
        ensures
            r.my_color == my_color,
            r.turn == Color::White,
            r.status == Status::Active,
            r.board_str == board_str,
            session_wf(r),
            r.spec_state() == (if my_color == Color::White {
                ArbiterState::AwaitingLocalMove
            } else {
                ArbiterState::AwaitingRemoteMove
            }),
    {
        Session { my_color, turn: Color::White, status: Status::Active, board_str }
    }
}

/// The status after the engine's game-over code is folded in: codes 1 to 4
/// name a terminal condition; any other code leaves the status as it was.
pub open spec fn status_after(current: Status, over_code: u8) -> Status {
    if over_code == 1 {
        Status::Checkmate
    } else if over_code == 2 {
        Status::Stalemate
    } else if over_code == 3 {
        Status::ThreefoldRepetition
    } else if over_code == 4 {
        Status::FiftyMoveRule
    } else {
        current
    }
}

impl Session {
    /// Refreshes the mirror after the engine was asked to apply a move:
    /// the turn and the placement come out of the engine's info string,
    /// the status out of its game-over code.  The local color never
    /// changes.
    pub fn update_board(&mut self, info: &str, over_code: u8)
        requires
            info@.len() >= 71,
        ensures
            final(self).my_color == old(self).my_color,
            final(self).turn == turn_of_info(info@),
            final(self).status == status_after(old(self).status, over_code),
            final(self).board_str@.len() == 64,
            forall|i: int|
                0 <= i < 8 ==> row(final(self).board_str@, i) == row(board_of_info(info@), 7 - i),
            session_wf(*old(self)) ==> session_wf(*final(self)),
    {
        let (turn, placement) = parse_boardinfo(info);
        self.turn = turn;
        self.board_str = placement;
        match over_code {
            1u8 => {
                self.status = Status::Checkmate;
            },
            2u8 => {
                self.status = Status::Stalemate;
            },
            3u8 => {
                self.status = Status::ThreefoldRepetition;
            },
            4u8 => {
                self.status = Status::FiftyMoveRule;
            },
            _ => {},
        }
    }

    /// The receiving peer's whole step for one remote move: the engine was
    /// asked to apply it, and the info string read back decides the
    /// verdict — the move counts as applied exactly when the side to move
    /// changed, and that is what the acknowledgment reports.  An accepted
    /// move always flips the turn; a rejected one leaves it unchanged.
    pub fn on_remote_move(&mut self, info: &str, over_code: u8) -> (ack: Ack)
        requires
            info@.len() >= 71,
        ensures
            final(self).my_color == old(self).my_color,
            final(self).turn == turn_of_info(info@),
            final(self).status == status_after(old(self).status, over_code),
            final(self).board_str@.len() == 64,
            forall|i: int|
                0 <= i < 8 ==> row(final(self).board_str@, i) == row(board_of_info(info@), 7 - i),
            ack.ok == (old(self).turn != turn_of_info(info@)),
            ack.end_state is None,
            ack.ok ==> final(self).turn != old(self).turn,
            !ack.ok ==> final(self).turn == old(self).turn,
            session_wf(*old(self)) ==> session_wf(*final(self)),
    {
        let turn_before = self.turn;
        self.update_board(info, over_code);
        let ok = turn_before != self.turn;
        Ack { ok, end_state: None }
    }
}

/// What one remote-move step does to the mirrored turn and status, and
/// the verdict it sends back.
pub open spec fn spec_remote_step(turn: Color, status: Status, info: Seq<char>, over_code: u8) -> (
    Color,
    Status,
    bool,
) {
    (turn_of_info(info), status_after(status, over_code), turn != turn_of_info(info))
}

/// Turn alternation: whenever a remote move is acknowledged as applied,
/// the side to move afterwards differs from the side to move before.
pub proof fn lemma_turn_alternation(turn: Color, status: Status, info: Seq<char>, over_code: u8)
    ensures
        ({
            let (turn2, _, ok) = spec_remote_step(turn, status, info, over_code);
            ok ==> turn2 != turn
        }),
{
}

/// Rejection idempotence: a move the engine refuses (the side to move did
/// not change) is answered `ok == false` and leaves the turn as it was —
/// and submitting it again refuses it again, with the turn still
/// unchanged.
pub proof fn lemma_rejection_idempotent(
    turn: Color,
    status: Status,
    info1: Seq<char>,
    code1: u8,
    info2: Seq<char>,
    code2: u8,
)
    requires
        turn_of_info(info1) == turn,
        turn_of_info(info2) == turn,
    ensures
        ({
            let (t1, s1, ok1) = spec_remote_step(turn, status, info1, code1);
            let (t2, s2, ok2) = spec_remote_step(t1, s1, info2, code2);
            &&& ok1 == false
            &&& ok2 == false
            &&& t1 == turn
            &&& t2 == turn
        }),
{
}

} // verus!
