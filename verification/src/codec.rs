//! The wire form of the three application messages.  Every message starts
//! with a tag byte, so a decoder can tell the kinds apart, and every
//! encoded message is at least two bytes long — the framing layer depends
//! on that (a single byte can only be the front of a message).  The
//! encoding is canonical: a byte sequence decodes to at most one message,
//! and decoding succeeds exactly on the encodings.

use vstd::prelude::*;
use vstd::bytes::{spec_u64_to_le_bytes, spec_u64_from_le_bytes, lemma_auto_spec_u64_to_from_le_bytes};
use crate::msg::{Status, PieceKind, Start, StartV, MoveMsg, Ack, start_wf, move_wf};

verus! {

pub const TAG_START: u8 = 1;

pub const TAG_MOVE: u8 = 2;

pub const TAG_ACK: u8 = 3;

/// The wire byte of a boolean field.
pub open spec fn bool_byte(b: bool) -> u8 {
    if b {
        1u8
    } else {
        0u8
    }
}

/// The boolean a wire byte denotes; bytes other than 0 and 1 are rejected.
pub open spec fn parse_bool(b: u8) -> Option<bool> {
    if b == 0 {
        Some(false)
    } else if b == 1 {
        Some(true)
    } else {
        None
    }
}

/// The wire byte of an optional end-of-game report.
pub open spec fn end_byte(e: Option<Status>) -> u8 {
    match e {
        None => 0u8,
        Some(Status::Checkmate) => 1u8,
        Some(Status::Stalemate) => 2u8,
        Some(Status::FiftyMoveRule) => 3u8,
        Some(Status::ThreefoldRepetition) => 4u8,
        Some(Status::Active) => 5u8,
    }
}

/// The end-of-game report a wire byte denotes.
pub open spec fn parse_end(b: u8) -> Option<Option<Status>> {
    if b == 0 {
        Some(None)
    } else if b == 1 {
        Some(Some(Status::Checkmate))
    } else if b == 2 {
        Some(Some(Status::Stalemate))
    } else if b == 3 {
        Some(Some(Status::FiftyMoveRule))
    } else if b == 4 {
        Some(Some(Status::ThreefoldRepetition))
    } else if b == 5 {
        Some(Some(Status::Active))
    } else {
        None
    }
}

/// The wire byte of an optional promotion.
pub open spec fn promo_byte(p: Option<PieceKind>) -> u8 {
    match p {
        None => 0u8,
        Some(PieceKind::Pawn) => 1u8,
        Some(PieceKind::Rook) => 2u8,
        Some(PieceKind::Knight) => 3u8,
        Some(PieceKind::Bishop) => 4u8,
        Some(PieceKind::Queen) => 5u8,
        Some(PieceKind::King) => 6u8,
    }
}

/// The promotion a wire byte denotes.
pub open spec fn parse_promo(b: u8) -> Option<Option<PieceKind>> {
    if b == 0 {
        Some(None)
    } else if b == 1 {
        Some(Some(PieceKind::Pawn))
    } else if b == 2 {
        Some(Some(PieceKind::Rook))
    } else if b == 3 {
        Some(Some(PieceKind::Knight))
    } else if b == 4 {
        Some(Some(PieceKind::Bishop))
    } else if b == 5 {
        Some(Some(PieceKind::Queen))
    } else if b == 6 {
        Some(Some(PieceKind::King))
    } else {
        None
    }
}

/// The three bytes of an acknowledgment.
pub open spec fn spec_encode_ack(m: Ack) -> Seq<u8> {
    seq![TAG_ACK, bool_byte(m.ok), end_byte(m.end_state)]
}

/// The acknowledgment a byte sequence denotes, if any: exactly three
/// bytes, the right tag, and both fields in range.
pub open spec fn spec_decode_ack(b: Seq<u8>) -> Option<Ack> {
    if b.len() == 3 && b[0] == TAG_ACK {
        match (parse_bool(b[1]), parse_end(b[2])) {
            (Some(ok), Some(e)) => Some(Ack { ok, end_state: e }),
            _ => None,
        }
    } else {
        None
    }
}

/// The eight bytes of a move message.
pub open spec fn spec_encode_move(m: MoveMsg) -> Seq<u8> {
    seq![
        TAG_MOVE,
        m.from.0,
        m.from.1,
        m.to.0,
        m.to.1,
        bool_byte(m.offer_draw),
        promo_byte(m.promotion),
        bool_byte(m.forfeit),
    ]
}

/// The move message a byte sequence denotes, if any: exactly eight bytes,
/// the right tag, both coordinates on the board, and the flag and
/// promotion bytes in range.
pub open spec fn spec_decode_move(b: Seq<u8>) -> Option<MoveMsg> {
    if b.len() == 8 && b[0] == TAG_MOVE && b[1] < 8 && b[2] < 8 && b[3] < 8 && b[4] < 8 {
        match (parse_bool(b[5]), parse_promo(b[6]), parse_bool(b[7])) {
            (Some(draw), Some(promo), Some(forfeit)) => Some(
                MoveMsg {
                    from: (b[1], b[2]),
                    to: (b[3], b[4]),
                    offer_draw: draw,
                    promotion: promo,
                    forfeit,
                },
            ),
            _ => None,
        }
    } else {
        None
    }
}

/// Encodes an acknowledgment.
pub fn encode_ack(m: &Ack) -> (r: Vec<u8>)
    ensures
        r@ == spec_encode_ack(*m),
        r@.len() == 3,
{
    let ok_b: u8 = if m.ok {
        1
    } else {
        0
    };
    let end_b: u8 = match m.end_state {
        None => 0,
        Some(Status::Checkmate) => 1,
        Some(Status::Stalemate) => 2,
        Some(Status::FiftyMoveRule) => 3,
        Some(Status::ThreefoldRepetition) => 4,
        Some(Status::Active) => 5,
    };
    let mut r: Vec<u8> = Vec::new();
    r.push(TAG_ACK);
    r.push(ok_b);
    r.push(end_b);
    proof {
        assert(r@ =~= spec_encode_ack(*m));
    }
    r
}

/// Decodes an acknowledgment; returns the message exactly when the bytes
/// are one message's encoding.
pub fn decode_ack(bytes: &Vec<u8>) -> (r: Option<Ack>)
    ensures
        r == spec_decode_ack(bytes@),
{
    if bytes.len() != 3 || bytes[0] != TAG_ACK {
        return None;
    }
    let ok = match bytes[1] {
        0u8 => false,
        1u8 => true,
        _ => {
            return None;
        },
    };
    let end_state: Option<Status> = match bytes[2] {
        0u8 => None,
        1u8 => Some(Status::Checkmate),
        2u8 => Some(Status::Stalemate),
        3u8 => Some(Status::FiftyMoveRule),
        4u8 => Some(Status::ThreefoldRepetition),
        5u8 => Some(Status::Active),
        _ => {
            return None;
        },
    };
    Some(Ack { ok, end_state })
}

/// Encodes a move message.
pub fn encode_move(m: &MoveMsg) -> (r: Vec<u8>)
    ensures
        r@ == spec_encode_move(*m),
        r@.len() == 8,
{
    let draw_b: u8 = if m.offer_draw {
        1
    } else {
        0
    };
    let promo_b: u8 = match m.promotion {
        None => 0,
        Some(PieceKind::Pawn) => 1,
        Some(PieceKind::Rook) => 2,
        Some(PieceKind::Knight) => 3,
        Some(PieceKind::Bishop) => 4,
        Some(PieceKind::Queen) => 5,
        Some(PieceKind::King) => 6,
    };
    let forfeit_b: u8 = if m.forfeit {
        1
    } else {
        0
    };
    let mut r: Vec<u8> = Vec::new();
    r.push(TAG_MOVE);
    r.push(m.from.0);
    r.push(m.from.1);
    r.push(m.to.0);
    r.push(m.to.1);
    r.push(draw_b);
    r.push(promo_b);
    r.push(forfeit_b);
    proof {
        assert(r@ =~= spec_encode_move(*m));
    }
    r
}

/// Decodes a move message; returns the message exactly when the bytes are
/// one wellformed move's encoding.
pub fn decode_move(bytes: &Vec<u8>) -> (r: Option<MoveMsg>)
    ensures
        r == spec_decode_move(bytes@),
{
    if bytes.len() != 8 || bytes[0] != TAG_MOVE {
        return None;
    }
    let fx = bytes[1];
    let fy = bytes[2];
    let tx = bytes[3];
    let ty = bytes[4];
    if fx >= 8 || fy >= 8 || tx >= 8 || ty >= 8 {
        return None;
    }
    let offer_draw = match bytes[5] {
        0u8 => false,
        1u8 => true,
        _ => {
            return None;
        },
    };
    let promotion: Option<PieceKind> = match bytes[6] {
        0u8 => None,
        1u8 => Some(PieceKind::Pawn),
        2u8 => Some(PieceKind::Rook),
        3u8 => Some(PieceKind::Knight),
        4u8 => Some(PieceKind::Bishop),
        5u8 => Some(PieceKind::Queen),
        6u8 => Some(PieceKind::King),
        _ => {
            return None;
        },
    };
    let forfeit = match bytes[7] {
        0u8 => false,
        1u8 => true,
        _ => {
            return None;
        },
    };
    Some(MoveMsg { from: (fx, fy), to: (tx, ty), offer_draw, promotion, forfeit })
}

/// The wire form of an optional byte string: an absent one is the single
/// byte 0; a present one is the byte 1, its length in two big-endian
/// bytes, then its bytes.
pub open spec fn opt_bytes(o: Option<Seq<u8>>) -> Seq<u8> {
    match o {
        None => seq![0u8],
        Some(s) => seq![1u8, (s.len() as int / 256) as u8, (s.len() as int % 256) as u8] + s,
    }
}

/// The wire form of an optional 64-bit count: the byte 0, or the byte 1
/// followed by the count's eight little-endian bytes.
pub open spec fn opt_u64(o: Option<u64>) -> Seq<u8> {
    match o {
        None => seq![0u8],
        Some(v) => seq![1u8] + spec_u64_to_le_bytes(v),
    }
}

/// Takes a boolean field off the front of a byte sequence.
pub open spec fn take_bool(b: Seq<u8>) -> Option<(bool, Seq<u8>)> {
    if b.len() >= 1 {
        match parse_bool(b[0]) {
            Some(v) => Some((v, b.subrange(1, b.len() as int))),
            None => None,
        }
    } else {
        None
    }
}

/// Takes an optional byte string off the front of a byte sequence.
pub open spec fn take_opt_bytes(b: Seq<u8>) -> Option<(Option<Seq<u8>>, Seq<u8>)> {
    if b.len() >= 1 {
        if b[0] == 0 {
            Some((None, b.subrange(1, b.len() as int)))
        } else if b[0] == 1 && b.len() >= 3 {
            let n = b[1] as int * 256 + b[2] as int;
            if b.len() >= 3 + n {
                Some((Some(b.subrange(3, 3 + n)), b.subrange(3 + n, b.len() as int)))
            } else {
                None
            }
        } else {
            None
        }
    } else {
        None
    }
}

/// Takes an optional 64-bit count off the front of a byte sequence.
pub open spec fn take_opt_u64(b: Seq<u8>) -> Option<(Option<u64>, Seq<u8>)> {
    if b.len() >= 1 {
        if b[0] == 0 {
            Some((None, b.subrange(1, b.len() as int)))
        } else if b[0] == 1 && b.len() >= 9 {
            Some((Some(spec_u64_from_le_bytes(b.subrange(1, 9))), b.subrange(9, b.len() as int)))
        } else {
            None
        }
    } else {
        None
    }
}

/// The bytes of a handshake message: the tag, the proposed color, then the
/// four optional fields in order.
pub open spec fn spec_encode_start(m: StartV) -> Seq<u8> {
    seq![TAG_START, bool_byte(m.is_white)] + opt_bytes(m.name) + opt_bytes(m.fen) + opt_u64(
        m.time_ms,
    ) + opt_u64(m.inc_ms)
}

/// The handshake message a byte sequence denotes, if any: the tag, the
/// five fields in order, and nothing after them.
pub open spec fn spec_decode_start(b: Seq<u8>) -> Option<StartV> {
    if b.len() >= 1 && b[0] == TAG_START {
        match take_bool(b.subrange(1, b.len() as int)) {
            Some((is_white, r1)) => match take_opt_bytes(r1) {
                Some((name, r2)) => match take_opt_bytes(r2) {
                    Some((fen, r3)) => match take_opt_u64(r3) {
                        Some((time_ms, r4)) => match take_opt_u64(r4) {
                            Some((inc_ms, r5)) => if r5.len() == 0 {
                                Some(StartV { is_white, name, fen, time_ms, inc_ms })
                            } else {
                                None
                            },
                            None => None,
                        },
                        None => None,
                    },
                    None => None,
                },
                None => None,
            },
            None => None,
        }
    } else {
        None
    }
}

/// A boolean field is taken back off the front of whatever follows it.
pub proof fn lemma_take_bool_front(v: bool, rest: Seq<u8>)
    ensures
        take_bool(seq![bool_byte(v)] + rest) == Some((v, rest)),
{
    let b = seq![bool_byte(v)] + rest;
    assert(b.subrange(1, b.len() as int) =~= rest);
}

/// An optional byte string that fits its length field is taken back off
/// the front of whatever follows it.
pub proof fn lemma_take_opt_bytes_front(o: Option<Seq<u8>>, rest: Seq<u8>)
    requires
        o matches Some(s) ==> s.len() < 65536,
    ensures
        take_opt_bytes(opt_bytes(o) + rest) == Some((o, rest)),
{
    let b = opt_bytes(o) + rest;
    match o {
        None => {
            assert(b.subrange(1, b.len() as int) =~= rest);
        },
        Some(s) => {
            let n0 = s.len() as int;
            assert(b[1] == (n0 / 256) as u8 && b[2] == (n0 % 256) as u8);
            let n = b[1] as int * 256 + b[2] as int;
            assert(n == n0);
            assert(b.len() == 3 + n0 + rest.len());
            assert(b.subrange(3, 3 + n) =~= s);
            assert(b.subrange(3 + n, b.len() as int) =~= rest);
        },
    }
}

/// An optional 64-bit count is taken back off the front of whatever
/// follows it.
pub proof fn lemma_take_opt_u64_front(o: Option<u64>, rest: Seq<u8>)
    ensures
        take_opt_u64(opt_u64(o) + rest) == Some((o, rest)),
{
    let b = opt_u64(o) + rest;
    match o {
        None => {
            assert(b.subrange(1, b.len() as int) =~= rest);
        },
        Some(v) => {
            lemma_auto_spec_u64_to_from_le_bytes();
            assert(b[0] == 1u8);
            assert(b.len() >= 9);
            assert(b.subrange(1, 9) =~= spec_u64_to_le_bytes(v));
            assert(b.subrange(9, b.len() as int) =~= rest);
        },
    }
}

/// Decoding undoes encoding: a wellformed handshake message comes back
/// from its own bytes unchanged.
#[verifier::rlimit(100)]
#[verifier::spinoff_prover]
pub proof fn lemma_start_round_trip(m: StartV)
    requires
        start_wf(m),
    ensures
        spec_decode_start(spec_encode_start(m)) == Some(m),
{
    let e = spec_encode_start(m);
    let tail1 = opt_bytes(m.name) + opt_bytes(m.fen) + opt_u64(m.time_ms) + opt_u64(m.inc_ms);
    assert(e[0] == TAG_START);
    assert(e.subrange(1, e.len() as int) =~= seq![bool_byte(m.is_white)] + tail1);
    lemma_take_bool_front(m.is_white, tail1);
    let tail2 = opt_bytes(m.fen) + opt_u64(m.time_ms) + opt_u64(m.inc_ms);
    assert(tail1 =~= opt_bytes(m.name) + tail2);
    lemma_take_opt_bytes_front(m.name, tail2);
    let tail3 = opt_u64(m.time_ms) + opt_u64(m.inc_ms);
    assert(tail2 =~= opt_bytes(m.fen) + tail3);
    lemma_take_opt_bytes_front(m.fen, tail3);
    let tail4 = opt_u64(m.inc_ms);
    assert(tail3 =~= opt_u64(m.time_ms) + tail4);
    lemma_take_opt_u64_front(m.time_ms, tail4);
    assert(tail4 =~= opt_u64(m.inc_ms) + Seq::<u8>::empty());
    lemma_take_opt_u64_front(m.inc_ms, Seq::<u8>::empty());
}

/// Appends a byte string to the buffer being built.
pub(crate) fn push_bytes(out: &mut Vec<u8>, s: &Vec<u8>)
    ensures
        final(out)@ == old(out)@ + s@,
{
    let ghost base = out@;
    let mut j: usize = 0;
    while j < s.len()
        invariant
            j <= s@.len(),
            out@ == base + s@.subrange(0, j as int),
        decreases s@.len() - j,
    {
        out.push(s[j]);
        proof {
            assert(base + s@.subrange(0, j as int) + seq![s@[j as int]] =~= base + s@.subrange(
                0,
                j + 1,
            ));
        }
        j += 1;
    }
    proof {
        assert(base + s@.subrange(0, s@.len() as int) =~= base + s@);
    }
}

/// Appends the wire form of an optional byte string.
fn push_opt_bytes(out: &mut Vec<u8>, o: &Option<Vec<u8>>)
    requires
        o matches Some(s) ==> s@.len() < 65536,
    ensures
        final(out)@ == old(out)@ + opt_bytes(match *o {
            Some(ref s) => Some(s@),
            None => None,
        }),
{
    match o {
        None => {
            out.push(0u8);
            proof {
                assert(old(out)@ + seq![0u8] =~= old(out)@ + opt_bytes(None));
            }
        },
        Some(s) => {
            out.push(1u8);
            out.push((s.len() / 256) as u8);
            out.push((s.len() % 256) as u8);
            push_bytes(out, s);
            proof {
                assert(out@ =~= old(out)@ + opt_bytes(Some(s@)));
            }
        },
    }
}

/// Appends the wire form of an optional 64-bit count.
fn push_opt_u64(out: &mut Vec<u8>, o: &Option<u64>)
    ensures
        final(out)@ == old(out)@ + opt_u64(*o),
{
    match o {
        None => {
            out.push(0u8);
            proof {
                assert(old(out)@ + seq![0u8] =~= old(out)@ + opt_u64(None));
            }
        },
        Some(v) => {
            out.push(1u8);
            let mut le = vstd::bytes::u64_to_le_bytes(*v);
            out.append(&mut le);
            proof {
                assert(out@ =~= old(out)@ + opt_u64(Some(*v)));
            }
        },
    }
}

/// Encodes a handshake message whose metadata fields fit their two-byte
/// wire lengths.
pub fn encode_start(m: &Start) -> (r: Vec<u8>)
    requires
        start_wf(m@),
    ensures
        r@ == spec_encode_start(m@),
        r@.len() >= 2,
{
    let mut r: Vec<u8> = Vec::new();
    r.push(TAG_START);
    r.push(if m.is_white {
        1u8
    } else {
        0u8
    });
    let ghost head = seq![TAG_START, bool_byte(m@.is_white)];
    proof {
        assert(r@ =~= head);
    }
    push_opt_bytes(&mut r, &m.name);
    push_opt_bytes(&mut r, &m.fen);
    push_opt_u64(&mut r, &m.time_ms);
    push_opt_u64(&mut r, &m.inc_ms);
    proof {
        assert(r@ =~= spec_encode_start(m@));
    }
    r
}

/// Takes an optional byte string out of the buffer at the given offset,
/// mirroring what `take_opt_bytes` does to the corresponding suffix.
fn take_opt_bytes_at(bytes: &Vec<u8>, k: usize) -> (r: Option<(Option<Vec<u8>>, usize)>)
    requires
        k <= bytes@.len(),
    ensures
        match r {
            Some((v, k2)) => {
                &&& k < k2 <= bytes@.len()
                &&& take_opt_bytes(bytes@.subrange(k as int, bytes@.len() as int)) == Some(
                    (
                        match v {
                            Some(ref vv) => Some(vv@),
                            None => None,
                        },
                        bytes@.subrange(k2 as int, bytes@.len() as int),
                    ),
                )
            },
            None => take_opt_bytes(bytes@.subrange(k as int, bytes@.len() as int)) is None,
        },
{
    let len = bytes.len();
    let ghost rest = bytes@.subrange(k as int, bytes@.len() as int);
    if len - k < 1 {
        return None;
    }
    assert(rest[0] == bytes@[k as int]);
    if bytes[k] == 0 {
        proof {
            assert(rest.subrange(1, rest.len() as int) =~= bytes@.subrange(
                k + 1,
                bytes@.len() as int,
            ));
        }
        Some((None, k + 1))
    } else if bytes[k] == 1 && len - k >= 3 {
        assert(rest[1] == bytes@[k + 1] && rest[2] == bytes@[k + 2]);
        let n: usize = (bytes[k + 1] as usize) * 256 + (bytes[k + 2] as usize);
        if n <= len - (k + 3) {
            let v = vstd::slice::slice_to_vec(
                vstd::slice::slice_subrange(bytes.as_slice(), k + 3, k + 3 + n),
            );
            proof {
                assert(rest.subrange(3, 3 + n) =~= bytes@.subrange(k + 3, k + 3 + n));
                assert(rest.subrange(3 + n, rest.len() as int) =~= bytes@.subrange(
                    k + 3 + n,
                    bytes@.len() as int,
                ));
            }
            Some((Some(v), k + 3 + n))
        } else {
            None
        }
    } else {
        None
    }
}

/// Takes an optional 64-bit count out of the buffer at the given offset,
/// mirroring what `take_opt_u64` does to the corresponding suffix.
fn take_opt_u64_at(bytes: &Vec<u8>, k: usize) -> (r: Option<(Option<u64>, usize)>)
    requires
        k <= bytes@.len(),
    ensures
        match r {
            Some((v, k2)) => {
                &&& k < k2 <= bytes@.len()
                &&& take_opt_u64(bytes@.subrange(k as int, bytes@.len() as int)) == Some(
                    (v, bytes@.subrange(k2 as int, bytes@.len() as int)),
                )
            },
            None => take_opt_u64(bytes@.subrange(k as int, bytes@.len() as int)) is None,
        },
{
    let len = bytes.len();
    let ghost rest = bytes@.subrange(k as int, bytes@.len() as int);
    if len - k < 1 {
        return None;
    }
    assert(rest[0] == bytes@[k as int]);
    if bytes[k] == 0 {
        proof {
            assert(rest.subrange(1, rest.len() as int) =~= bytes@.subrange(
                k + 1,
                bytes@.len() as int,
            ));
        }
        Some((None, k + 1))
    } else if bytes[k] == 1 && len - k >= 9 {
        let v = vstd::bytes::u64_from_le_bytes(
            vstd::slice::slice_subrange(bytes.as_slice(), k + 1, k + 9),
        );
        proof {
            assert(rest.subrange(1, 9) =~= bytes@.subrange(k + 1, k + 9));
            assert(rest.subrange(9, rest.len() as int) =~= bytes@.subrange(
                k + 9,
                bytes@.len() as int,
            ));
        }
        Some((Some(v), k + 9))
    } else {
        None
    }
}

/// Decodes a handshake message; returns the message exactly when the bytes
/// are one wellformed message's encoding.
pub fn decode_start(bytes: &Vec<u8>) -> (r: Option<Start>)
    ensures
        r matches Some(m) ==> spec_decode_start(bytes@) == Some(m@),
        r is None ==> spec_decode_start(bytes@) is None,
{
    let len = bytes.len();
    if len < 2 || bytes[0] != TAG_START {
        return None;
    }
    let ghost r0 = bytes@.subrange(1, bytes@.len() as int);
    let is_white = match bytes[1] {
        0u8 => false,
        1u8 => true,
        _ => {
            proof {
                assert(r0[0] == bytes@[1]);
            }
            return None;
        },
    };
    proof {
        assert(r0[0] == bytes@[1]);
        assert(r0.subrange(1, r0.len() as int) =~= bytes@.subrange(2, bytes@.len() as int));
    }
    let k1: usize = 2;
    let (name, k2) = match take_opt_bytes_at(bytes, k1) {
        Some(p) => p,
        None => {
            return None;
        },
    };
    let (fen, k3) = match take_opt_bytes_at(bytes, k2) {
        Some(p) => p,
        None => {
            return None;
        },
    };
    let (time_ms, k4) = match take_opt_u64_at(bytes, k3) {
        Some(p) => p,
        None => {
            return None;
        },
    };
    let (inc_ms, k5) = match take_opt_u64_at(bytes, k4) {
        Some(p) => p,
        None => {
            return None;
        },
    };
    if k5 != len {
        return None;
    }
    Some(Start { is_white, name, fen, time_ms, inc_ms })
}

/// What a successful `take_bool` consumed: exactly the field's one byte.
proof fn lemma_take_bool_inverse(b: Seq<u8>, v: bool, rest: Seq<u8>)
    requires
        take_bool(b) == Some((v, rest)),
    ensures
        b == seq![bool_byte(v)] + rest,
{
    assert(b =~= seq![bool_byte(v)] + rest);
}

/// What a successful `take_opt_bytes` consumed: exactly the wire form of
/// the field it returned, whose byte string always fits its length field.
proof fn lemma_take_opt_bytes_inverse(b: Seq<u8>, o: Option<Seq<u8>>, rest: Seq<u8>)
    requires
        take_opt_bytes(b) == Some((o, rest)),
    ensures
        b == opt_bytes(o) + rest,
        o matches Some(s) ==> s.len() < 65536,
{
    if b[0] == 0 {
        assert(b =~= opt_bytes(o) + rest);
    } else {
        let hi = b[1] as int;
        let lo = b[2] as int;
        let n = hi * 256 + lo;
        let s = b.subrange(3, 3 + n);
        assert(o == Some(s) && rest == b.subrange(3 + n, b.len() as int));
        assert(s.len() == n < 65536);
        assert(n / 256 == hi && n % 256 == lo) by (nonlinear_arith)
            requires
                n == hi * 256 + lo,
                0 <= hi < 256,
                0 <= lo < 256,
        ;
        assert(b =~= opt_bytes(Some(s)) + rest);
    }
}

/// What a successful `take_opt_u64` consumed: exactly the wire form of the
/// count it returned.
proof fn lemma_take_opt_u64_inverse(b: Seq<u8>, o: Option<u64>, rest: Seq<u8>)
    requires
        take_opt_u64(b) == Some((o, rest)),
    ensures
        b == opt_u64(o) + rest,
{
    if b[0] == 0 {
        assert(b =~= opt_u64(o) + rest);
    } else {
        let s8 = b.subrange(1, 9);
        lemma_auto_spec_u64_to_from_le_bytes();
        assert(spec_u64_to_le_bytes(spec_u64_from_le_bytes(s8)) == s8);
        assert(b =~= opt_u64(Some(spec_u64_from_le_bytes(s8))) + rest);
    }
}

/// Five fields taken off a sequence one after the other, the last one
/// followed by nothing, make up the sequence in order.
proof fn lemma_reassociate_fields(
    r0: Seq<u8>,
    x0: Seq<u8>,
    r1: Seq<u8>,
    x1: Seq<u8>,
    r2: Seq<u8>,
    x2: Seq<u8>,
    r3: Seq<u8>,
    x3: Seq<u8>,
    r4: Seq<u8>,
    x4: Seq<u8>,
)
    requires
        r0 == x0 + r1,
        r1 == x1 + r2,
        r2 == x2 + r3,
        r3 == x3 + r4,
        r4 == x4,
    ensures
        r0 == x0 + x1 + x2 + x3 + x4,
{
    assert(r0 =~= x0 + x1 + x2 + x3 + x4);
}

/// A sequence whose head is known and whose tail starts with one known
/// byte is the two bytes followed by the rest of the tail.
proof fn lemma_prepend_tag(b: Seq<u8>, t: u8, v: u8, x1: Seq<u8>, x2: Seq<u8>, x3: Seq<u8>, x4: Seq<u8>)
    requires
        b.len() >= 1,
        b[0] == t,
        b.subrange(1, b.len() as int) == seq![v] + x1 + x2 + x3 + x4,
    ensures
        b == seq![t, v] + x1 + x2 + x3 + x4,
{
    let tail = b.subrange(1, b.len() as int);
    assert(b =~= seq![t] + tail);
    assert(seq![t] + (seq![v] + x1 + x2 + x3 + x4) =~= seq![t, v] + x1 + x2 + x3 + x4);
}

/// The encoding of handshake messages is canonical: bytes that decode at
/// all are exactly the decoded message's encoding, and only wellformed
/// messages are on the wire at all.
#[verifier::rlimit(100)]
#[verifier::spinoff_prover]
pub proof fn lemma_start_canonical(b: Seq<u8>, m: StartV)
    requires
        spec_decode_start(b) == Some(m),
    ensures
        b == spec_encode_start(m),
        start_wf(m),
{
    let r0 = b.subrange(1, b.len() as int);
    let (w, r1) = take_bool(r0).unwrap();
    let (name, r2) = take_opt_bytes(r1).unwrap();
    let (fen, r3) = take_opt_bytes(r2).unwrap();
    let (time_ms, r4) = take_opt_u64(r3).unwrap();
    let (inc_ms, r5) = take_opt_u64(r4).unwrap();
    lemma_take_bool_inverse(r0, w, r1);
    lemma_take_opt_bytes_inverse(r1, name, r2);
    lemma_take_opt_bytes_inverse(r2, fen, r3);
    lemma_take_opt_u64_inverse(r3, time_ms, r4);
    lemma_take_opt_u64_inverse(r4, inc_ms, r5);
    assert(r4 =~= opt_u64(inc_ms));
    lemma_reassociate_fields(
        r0,
        seq![bool_byte(w)],
        r1,
        opt_bytes(name),
        r2,
        opt_bytes(fen),
        r3,
        opt_u64(time_ms),
        r4,
        opt_u64(inc_ms),
    );
    lemma_prepend_tag(
        b,
        TAG_START,
        bool_byte(w),
        opt_bytes(name),
        opt_bytes(fen),
        opt_u64(time_ms),
        opt_u64(inc_ms),
    );
}

/// Decoding undoes encoding: an acknowledgment comes back from its own
/// bytes unchanged.
pub proof fn lemma_ack_round_trip(m: Ack)
    ensures
        spec_decode_ack(spec_encode_ack(m)) == Some(m),
{
}

/// The encoding of acknowledgments is canonical: bytes that decode at all
/// are exactly the decoded message's encoding.
pub proof fn lemma_ack_canonical(b: Seq<u8>, m: Ack)
    requires
        spec_decode_ack(b) == Some(m),
    ensures
        b == spec_encode_ack(m),
{
    assert(b =~= spec_encode_ack(m));
}

/// Decoding undoes encoding: a wellformed move message comes back from its
/// own bytes unchanged.
pub proof fn lemma_move_round_trip(m: MoveMsg)
    requires
        move_wf(m),
    ensures
        spec_decode_move(spec_encode_move(m)) == Some(m),
{
}

/// The encoding of move messages is canonical, and only wellformed moves
/// are on the wire at all.
pub proof fn lemma_move_canonical(b: Seq<u8>, m: MoveMsg)
    requires
        spec_decode_move(b) == Some(m),
    ensures
        b == spec_encode_move(m),
        move_wf(m),
{
    assert(b =~= spec_encode_move(m));
}

} // verus!
