//! Text of the board as the rules engine reports it: a 64-character piece
//! string, one row of eight per rank, plus a status line in front of it.
//! The engine writes rank 1 first; the renderer wants rank 8 first, so the
//! row order is inverted on the way through.

use vstd::prelude::*;
use crate::transcode::Color;

verus! {

/// Row `r` (eight characters) of a 64-character board string.
pub open spec fn row(s: Seq<char>, r: int) -> Seq<char> {
    s.subrange(8 * r, 8 * r + 8)
}

/// Reverses the order of the eight 8-character rows of a board string, so
/// that the row written last comes first.
pub fn invert_boardstr(boardstr: String) -> (r: String)
    requires
        boardstr@.len() == 64,
    ensures
        r@.len() == 64,
        forall|i: int| 0 <= i < 8 ==> row(r@, i) == row(boardstr@, 7 - i),
{
    let mut out = String::new();
    let mut rr: usize = 0;
    while rr < 8
        invariant
            boardstr@.len() == 64,
            rr <= 8,
            out@.len() == 8 * rr,
            forall|i: int| 0 <= i < rr ==> row(out@, i) == row(boardstr@, 7 - i),
        decreases 8 - rr,
    {
        let start: usize = 8 * (7 - rr);
        let piece: &str = boardstr.as_str().substring_char(start, start + 8);
        let ghost old_out = out@;
        out.append(piece);
        proof {
            assert forall|i: int| 0 <= i < rr + 1 implies row(out@, i) == row(
                boardstr@,
                7 - i,
            ) by {
                if i < rr {
                    assert(row(out@, i) =~= row(old_out, i));
                } else {
                    assert(row(out@, i) =~= piece@);
                }
            }
        }
        rr += 1;
    }
    out
}

/// The side to move as the engine's info string reports it: character 2 is
/// `'W'` when White is to move, anything else means Black.
pub open spec fn turn_of_info(s: Seq<char>) -> Color {
    if s[2] == 'W' {
        Color::White
    } else {
        Color::Black
    }
}

/// The 64 piece characters of the engine's info string.
pub open spec fn board_of_info(s: Seq<char>) -> Seq<char> {
    s.subrange(7, 71)
}

/// Reads the side to move and the piece placement out of the engine's info
/// string, returning the placement with its rows inverted for rendering.
pub fn parse_boardinfo(info: &str) -> (r: (Color, String))
    requires
        info@.len() >= 71,
    ensures
        r.0 == turn_of_info(info@),
        r.1@.len() == 64,
        forall|i: int| 0 <= i < 8 ==> row(r.1@, i) == row(board_of_info(info@), 7 - i),
{
    let t = info.get_char(2);
    let turn = if t == 'W' {
        Color::White
    } else {
        Color::Black
    };
    let placement: &str = info.substring_char(7, 71);
    let inverted = invert_boardstr(String::from_str(placement));
    (turn, inverted)
}

} // verus!
