//! End-to-end scenarios: both peers run the real handshake, codec, framing
//! and arbitration; what the rules engine would report is played in as the
//! info strings each peer reads back from its own engine.

use chess_sync::channel::{assemble, needs_continuation};
use chess_sync::codec::{decode_ack, decode_move, decode_start, encode_ack, encode_move, encode_start};
use chess_sync::moves::{build_move_msg, move_msg_indices, move_string};
use chess_sync::session::{initiator_color, initiator_propose, listener_reply, ArbiterState, Session};
use chess_sync::transcode::Color;

fn info(turn: char) -> String {
    format!("00{}0000{}", turn, "x".repeat(64))
}

/// The full happy path: handshake, one legal move by White, acceptance,
/// and both peers agreeing that Black is to move.
#[test]
fn legal_move_accepted_end_to_end() {
    // Handshake: the initiator proposes White, over the wire.
    let proposal = initiator_propose(Some(b"first".to_vec()));
    assert!(proposal.is_white);
    let wire = encode_start(&proposal);
    let received = decode_start(&wire).expect("handshake proposal must decode");
    let (reply, listener_local) = listener_reply(&received, Some(b"second".to_vec()));
    let wire_back = encode_start(&reply);
    let reply_received = decode_start(&wire_back).expect("handshake reply must decode");
    let initiator_local = initiator_color(&reply_received);
    assert_eq!(initiator_local, Color::White);
    assert_eq!(listener_local, Color::Black);

    let mut initiator = Session::new_session(initiator_local, String::new());
    let mut listener = Session::new_session(listener_local, String::new());
    assert_eq!(initiator.state(), ArbiterState::AwaitingLocalMove);
    assert_eq!(listener.state(), ArbiterState::AwaitingRemoteMove);

    // The initiator (White) plays e2 to e4 and sends it.
    let mv = build_move_msg(52, 36);
    let mv_wire = encode_move(&mv);

    // The listener's poll sees the move, hands it to its engine, and the
    // side to move changes from White to Black: accepted.
    let mv_received = decode_move(&mv_wire).expect("move must decode");
    let (from, to) = move_msg_indices(&mv_received);
    assert_eq!(move_string(from, to), "e2e4");
    let ack = listener.on_remote_move(&info('B'), 0);
    assert!(ack.ok);
    assert_eq!(ack.end_state, None);

    // The acknowledgment travels back; the initiator applies the move to
    // its own engine and mirrors the result.
    let ack_wire = encode_ack(&ack);
    let ack_received = decode_ack(&ack_wire).expect("acknowledgment must decode");
    assert!(ack_received.ok);
    initiator.update_board(&info('B'), 0);

    // Both peers now agree: Black to move.
    assert_eq!(initiator.turn, Color::Black);
    assert_eq!(listener.turn, Color::Black);
    assert_eq!(initiator.state(), ArbiterState::AwaitingRemoteMove);
    assert_eq!(listener.state(), ArbiterState::AwaitingLocalMove);
}

/// The rejection path: White plays an illegal move, the listener's engine
/// refuses it (the side to move stays White), and nothing changes on
/// either side.
#[test]
fn illegal_move_rejected_end_to_end() {
    let mut initiator = Session::new_session(Color::White, String::new());
    let mut listener = Session::new_session(Color::Black, String::new());

    // White claims to play e2 to e5 — no piece can do that from the
    // starting position.
    let mv = build_move_msg(52, 28);
    let mv_wire = encode_move(&mv);
    let mv_received = decode_move(&mv_wire).expect("move must decode");
    let (from, to) = move_msg_indices(&mv_received);
    assert_eq!(move_string(from, to), "e2e5");

    // The listener's engine refuses: the side to move is still White.
    let ack = listener.on_remote_move(&info('W'), 0);
    assert!(!ack.ok);
    assert_eq!(listener.turn, Color::White);
    assert_eq!(listener.state(), ArbiterState::AwaitingRemoteMove);

    // The initiator sees the refusal and leaves its state untouched.
    let ack_wire = encode_ack(&ack);
    let ack_received = decode_ack(&ack_wire).expect("acknowledgment must decode");
    assert!(!ack_received.ok);
    assert_eq!(initiator.turn, Color::White);
    assert_eq!(initiator.state(), ArbiterState::AwaitingLocalMove);

    // Submitting the same illegal move again ends the same way.
    let ack2 = listener.on_remote_move(&info('W'), 0);
    assert!(!ack2.ok);
    assert_eq!(listener.turn, Color::White);
    assert_eq!(initiator.state(), ArbiterState::AwaitingLocalMove);
}

/// The handshake survives a fragmented delivery: the proposal arrives as
/// one byte and then the rest.
#[test]
fn fragmented_handshake_end_to_end() {
    let proposal = initiator_propose(None);
    let wire = encode_start(&proposal);
    let first = wire[..1].to_vec();
    let rest = wire[1..].to_vec();
    assert!(needs_continuation(&first));
    let whole = assemble(first, &rest);
    let received = decode_start(&whole).expect("reassembled proposal must decode");
    let (_, listener_local) = listener_reply(&received, None);
    assert_eq!(listener_local, Color::Black);
}
