use chess_sync::codec::{
    decode_ack, decode_move, decode_start, encode_ack, encode_move, encode_start, TAG_ACK,
    TAG_MOVE, TAG_START,
};
use chess_sync::msg::{Ack, MoveMsg, PieceKind, Start, Status};

fn plain_start(is_white: bool) -> Start {
    Start { is_white, name: None, fen: None, time_ms: None, inc_ms: None }
}

fn moves_eq(a: &MoveMsg, b: &MoveMsg) -> bool {
    a == b
}

#[test]
fn ack_round_trip_all_variants() {
    let ends = [
        None,
        Some(Status::Checkmate),
        Some(Status::Stalemate),
        Some(Status::FiftyMoveRule),
        Some(Status::ThreefoldRepetition),
        Some(Status::Active),
    ];
    for ok in [false, true] {
        for end_state in ends {
            let m = Ack { ok, end_state };
            let bytes = encode_ack(&m);
            assert_eq!(bytes.len(), 3);
            assert_eq!(bytes[0], TAG_ACK);
            assert_eq!(decode_ack(&bytes), Some(m));
        }
    }
}

#[test]
fn ack_concrete_bytes() {
    let bytes = encode_ack(&Ack { ok: true, end_state: Some(Status::Checkmate) });
    assert_eq!(bytes, vec![3u8, 1, 1]);
    let bytes = encode_ack(&Ack { ok: false, end_state: None });
    assert_eq!(bytes, vec![3u8, 0, 0]);
}

#[test]
fn ack_rejects_malformed() {
    assert_eq!(decode_ack(&vec![]), None);
    assert_eq!(decode_ack(&vec![TAG_ACK, 1]), None);
    assert_eq!(decode_ack(&vec![TAG_ACK, 1, 0, 0]), None);
    assert_eq!(decode_ack(&vec![TAG_MOVE, 1, 0]), None);
    assert_eq!(decode_ack(&vec![TAG_ACK, 2, 0]), None);
    assert_eq!(decode_ack(&vec![TAG_ACK, 1, 6]), None);
}

#[test]
fn move_round_trip() {
    let promos = [
        None,
        Some(PieceKind::Pawn),
        Some(PieceKind::Rook),
        Some(PieceKind::Knight),
        Some(PieceKind::Bishop),
        Some(PieceKind::Queen),
        Some(PieceKind::King),
    ];
    for promotion in promos {
        for offer_draw in [false, true] {
            for forfeit in [false, true] {
                let m = MoveMsg { from: (4, 1), to: (4, 3), offer_draw, promotion, forfeit };
                let bytes = encode_move(&m);
                assert_eq!(bytes.len(), 8);
                assert_eq!(bytes[0], TAG_MOVE);
                let back = decode_move(&bytes).expect("its own encoding must decode");
                assert!(moves_eq(&back, &m));
            }
        }
    }
}

#[test]
fn move_concrete_bytes() {
    let m = MoveMsg {
        from: (4, 1),
        to: (4, 3),
        offer_draw: false,
        promotion: Some(PieceKind::Queen),
        forfeit: false,
    };
    assert_eq!(encode_move(&m), vec![2u8, 4, 1, 4, 3, 0, 5, 0]);
}

#[test]
fn move_rejects_malformed() {
    assert_eq!(decode_move(&vec![]), None);
    assert_eq!(decode_move(&vec![TAG_MOVE, 4, 1, 4, 3, 0, 0]), None);
    assert_eq!(decode_move(&vec![TAG_MOVE, 4, 1, 4, 3, 0, 0, 0, 0]), None);
    assert_eq!(decode_move(&vec![TAG_ACK, 4, 1, 4, 3, 0, 0, 0]), None);
    // A coordinate off the board.
    assert_eq!(decode_move(&vec![TAG_MOVE, 8, 1, 4, 3, 0, 0, 0]), None);
    assert_eq!(decode_move(&vec![TAG_MOVE, 4, 1, 4, 8, 0, 0, 0]), None);
    // Flag and promotion bytes out of range.
    assert_eq!(decode_move(&vec![TAG_MOVE, 4, 1, 4, 3, 2, 0, 0]), None);
    assert_eq!(decode_move(&vec![TAG_MOVE, 4, 1, 4, 3, 0, 7, 0]), None);
    assert_eq!(decode_move(&vec![TAG_MOVE, 4, 1, 4, 3, 0, 0, 9]), None);
}

#[test]
fn start_round_trip_plain() {
    for is_white in [false, true] {
        let bytes = encode_start(&plain_start(is_white));
        assert_eq!(bytes[0], TAG_START);
        assert!(bytes.len() >= 2);
        let back = decode_start(&bytes).expect("its own encoding must decode");
        assert_eq!(back.is_white, is_white);
        assert_eq!(back.name, None);
        assert_eq!(back.fen, None);
        assert_eq!(back.time_ms, None);
        assert_eq!(back.inc_ms, None);
    }
}

#[test]
fn start_round_trip_full() {
    let m = Start {
        is_white: true,
        name: Some(b"deep blue".to_vec()),
        fen: Some(b"rnbqkbnr/pppppppp/8/8/8/8/PPPPPPPP/RNBQKBNR w KQkq - 0 1".to_vec()),
        time_ms: Some(300_000),
        inc_ms: Some(2_000),
    };
    let bytes = encode_start(&m);
    let back = decode_start(&bytes).expect("its own encoding must decode");
    assert_eq!(back.is_white, m.is_white);
    assert_eq!(back.name, m.name);
    assert_eq!(back.fen, m.fen);
    assert_eq!(back.time_ms, m.time_ms);
    assert_eq!(back.inc_ms, m.inc_ms);
}

#[test]
fn start_round_trip_empty_name() {
    let m = Start {
        is_white: false,
        name: Some(Vec::new()),
        fen: None,
        time_ms: Some(0),
        inc_ms: None,
    };
    let bytes = encode_start(&m);
    let back = decode_start(&bytes).expect("its own encoding must decode");
    assert_eq!(back.name, Some(Vec::new()));
    assert_eq!(back.time_ms, Some(0));
}

#[test]
fn start_round_trip_long_name() {
    let m = Start {
        is_white: true,
        name: Some(vec![7u8; 300]),
        fen: None,
        time_ms: None,
        inc_ms: None,
    };
    let bytes = encode_start(&m);
    let back = decode_start(&bytes).expect("its own encoding must decode");
    assert_eq!(back.name, Some(vec![7u8; 300]));
}

#[test]
fn start_rejects_malformed() {
    assert_eq!(decode_start(&vec![]).is_none(), true);
    assert_eq!(decode_start(&vec![TAG_START]).is_none(), true);
    // Wrong tag.
    assert_eq!(decode_start(&vec![TAG_MOVE, 1, 0, 0, 0, 0]).is_none(), true);
    // A flag byte out of range.
    assert_eq!(decode_start(&vec![TAG_START, 2, 0, 0, 0, 0]).is_none(), true);
    // A presence byte out of range.
    assert_eq!(decode_start(&vec![TAG_START, 1, 3, 0, 0, 0]).is_none(), true);
    // A name length pointing past the end.
    assert_eq!(decode_start(&vec![TAG_START, 1, 1, 0, 9, 0, 0, 0]).is_none(), true);
    // Trailing garbage after a complete message.
    let mut bytes = encode_start(&plain_start(true));
    bytes.push(0);
    assert_eq!(decode_start(&bytes).is_none(), true);
    // A truncated complete message.
    let bytes = encode_start(&plain_start(true));
    let shorter = bytes[..bytes.len() - 1].to_vec();
    assert_eq!(decode_start(&shorter).is_none(), true);
}

#[test]
fn messages_never_encode_to_one_byte() {
    assert!(encode_start(&plain_start(true)).len() >= 2);
    assert!(
        encode_move(
            &MoveMsg { from: (0, 0), to: (0, 0), offer_draw: false, promotion: None, forfeit: false },
        )
        .len()
            >= 2
    );
    assert!(encode_ack(&Ack { ok: false, end_state: None }).len() >= 2);
}
