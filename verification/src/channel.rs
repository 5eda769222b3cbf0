//! Framing over a stream that may deliver a message in more than one read.
//! A read that returns exactly one byte is taken as the front of a message
//! split across reads — the codec never produces a one-byte message — so
//! the receiver holds that byte, polls for a continuation, and glues the
//! two together before decoding.  A read of any other length is decoded as
//! it stands (an empty read decodes to nothing and the caller polls again).

use vstd::prelude::*;
use crate::msg::{MoveMsg, Ack, StartV, start_wf, move_wf};
use crate::codec::{
    spec_encode_start, spec_encode_move, spec_encode_ack, spec_decode_start, spec_decode_move,
    spec_decode_ack, lemma_start_round_trip, lemma_move_round_trip, lemma_ack_round_trip,
    push_bytes,
};

verus! {

/// True when a read delivered exactly one byte, which the single-byte
/// fragment heuristic treats as a truncated delivery that needs a
/// continuation before decoding.
pub fn needs_continuation(data: &Vec<u8>) -> (r: bool)
    ensures
        r == (data@.len() == 1),
{
    data.len() == 1
}

/// Glues a held fragment together with the continuation that arrived
/// after it, restoring the bytes in the order the sender wrote them.
pub fn assemble(first: Vec<u8>, cont: &Vec<u8>) -> (r: Vec<u8>)
    ensures
        r@ == first@ + cont@,
{
    let mut r = first;
    push_bytes(&mut r, cont);
    r
}

/// Splitting any delivery after its first byte and reassembling restores
/// the very bytes that were sent.
pub proof fn lemma_reassembly(b: Seq<u8>)
    requires
        b.len() >= 1,
    ensures
        b.subrange(0, 1) + b.subrange(1, b.len() as int) == b,
{
    assert(b.subrange(0, 1) + b.subrange(1, b.len() as int) =~= b);
}

/// Fragmentation tolerance for a move message: delivered as its first
/// byte followed by the rest, it reassembles and decodes to the move that
/// was sent.
pub proof fn lemma_move_fragmentation(m: MoveMsg)
    requires
        move_wf(m),
    ensures
        ({
            let e = spec_encode_move(m);
            spec_decode_move(e.subrange(0, 1) + e.subrange(1, e.len() as int)) == Some(m)
        }),
{
    lemma_reassembly(spec_encode_move(m));
    lemma_move_round_trip(m);
}

/// Fragmentation tolerance for a handshake message.
pub proof fn lemma_start_fragmentation(m: StartV)
    requires
        start_wf(m),
    ensures
        ({
            let e = spec_encode_start(m);
            spec_decode_start(e.subrange(0, 1) + e.subrange(1, e.len() as int)) == Some(m)
        }),
{
    lemma_reassembly(spec_encode_start(m));
    lemma_start_round_trip(m);
}

/// Fragmentation tolerance for an acknowledgment.
pub proof fn lemma_ack_fragmentation(m: Ack)
    ensures
        ({
            let e = spec_encode_ack(m);
            spec_decode_ack(e.subrange(0, 1) + e.subrange(1, e.len() as int)) == Some(m)
        }),
{
    lemma_reassembly(spec_encode_ack(m));
    lemma_ack_round_trip(m);
}

} // verus!
