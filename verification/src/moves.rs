//! What becomes of moves on their way between the user, the rules engine
//! and the wire: the per-origin table of legal destinations built from the
//! engine's move list, the move strings handed to the engine, the wire
//! form of a selected move, and the decision a board click leads to.

use vstd::prelude::*;
use crate::transcode::{
    Color, piece_color, wellformed_alg, alg_index, alg_of_index, str_to_idx, idx_to_str, wire_x,
    wire_y, index_of_wire, pos_int_to_tuple, pos_tuple_to_int,
};
use crate::msg::{MoveMsg, move_wf};

verus! {

/// A move string as the engine lists them: at least four characters, the
/// first two the origin square, the next two the destination.
pub open spec fn wellformed_move_str(s: Seq<char>) -> bool {
    s.len() >= 4 && wellformed_alg(s.subrange(0, 2)) && wellformed_alg(s.subrange(2, 4))
}

/// The origin index of a wellformed move string.
pub open spec fn move_origin(s: Seq<char>) -> int {
    alg_index(s.subrange(0, 2))
}

/// The destination index of a wellformed move string.
pub open spec fn move_dest(s: Seq<char>) -> int {
    alg_index(s.subrange(2, 4))
}

/// The destinations, in listing order, of the wellformed moves in the
/// list that leave from the given origin.
pub open spec fn dests_for(moves: Seq<Seq<char>>, o: int) -> Seq<int>
    decreases moves.len(),
{
    if moves.len() == 0 {
        Seq::empty()
    } else {
        dests_for(moves.drop_last(), o) + (if wellformed_move_str(moves.last()) && move_origin(
            moves.last(),
        ) == o {
            seq![move_dest(moves.last())]
        } else {
            Seq::empty()
        })
    }
}

/// Builds the per-origin table of destinations out of the engine's list
/// of legal moves: entry `o` holds, in listing order, the destinations of
/// the wellformed moves that leave from square `o`.  Malformed strings
/// contribute nothing.
pub fn generate_valid_moves(moves: &Vec<String>) -> (r: Vec<Vec<usize>>)
    ensures
        r@.len() == 64,
        forall|o: int|
            0 <= o < 64 ==> (#[trigger] r@[o])@.map_values(|d: usize| d as int) == dests_for(
                moves.deep_view(),
                o,
            ),
{
    let ghost dv = moves.deep_view();
    let mut table: Vec<Vec<usize>> = Vec::new();
    let mut o: usize = 0;
    while o < 64
        invariant
            o <= 64,
            table@.len() == o,
            dv == moves.deep_view(),
            forall|j: int|
                0 <= j < o ==> (#[trigger] table@[j])@.map_values(|d: usize| d as int) == dests_for(
                    dv,
                    j,
                ),
        decreases 64 - o,
    {
        let mut dests: Vec<usize> = Vec::new();
        let mut k: usize = 0;
        while k < moves.len()
            invariant
                o < 64,
                k <= moves@.len(),
                dv == moves.deep_view(),
                dv.len() == moves@.len(),
                dests@.map_values(|d: usize| d as int) == dests_for(
                    dv.subrange(0, k as int),
                    o as int,
                ),
        decreases moves@.len() - k,
        {
            let m: &String = &moves[k];
            proof {
                assert(dv[k as int] == moves@[k as int]@);
            }
            let ghost before = dests@;
            if m.as_str().unicode_len() >= 4 {
                let from_s: &str = m.as_str().substring_char(0, 2);
                let to_s: &str = m.as_str().substring_char(2, 4);
                let from_r = str_to_idx(from_s);
                let to_r = str_to_idx(to_s);
                match (from_r, to_r) {
                    (Ok(f), Ok(t)) => {
                        if f == o {
                            dests.push(t);
                        }
                    },
                    _ => {},
                }
            }
            proof {
                let prefix = dv.subrange(0, k as int);
                let prefix1 = dv.subrange(0, k + 1);
                assert(prefix1.drop_last() =~= prefix);
                assert(prefix1.last() == dv[k as int]);
                if wellformed_move_str(dv[k as int]) && move_origin(dv[k as int]) == o as int {
                    assert(dests@.map_values(|d: usize| d as int) =~= before.map_values(
                        |d: usize| d as int,
                    ) + seq![move_dest(dv[k as int])]);
                } else {
                    assert(dests@.map_values(|d: usize| d as int) =~= dests_for(
                        prefix1,
                        o as int,
                    ));
                }
            }
            k += 1;
        }
        proof {
            assert(dv.subrange(0, dv.len() as int) =~= dv);
        }
        table.push(dests);
        o += 1;
    }
    table
}

/// True when the destination table row for the selected origin lists the
/// clicked square.
pub fn contains_dest(dests: &Vec<usize>, idx: usize) -> (r: bool)
    ensures
        r == dests@.contains(idx),
{
    let mut k: usize = 0;
    while k < dests.len()
        invariant
            k <= dests@.len(),
            forall|j: int| 0 <= j < k ==> dests@[j] != idx,
        decreases dests@.len() - k,
    {
        if dests[k] == idx {
            return true;
        }
        k += 1;
    }
    false
}

/// The move string the engine is handed for one ply: origin then
/// destination in algebraic notation.
pub fn move_string(from: usize, to: usize) -> (r: String)
    requires
        from < 64,
        to < 64,
    ensures
        r@ == alg_of_index(from as int) + alg_of_index(to as int),
{
    let a = idx_to_str(from);
    let b = idx_to_str(to);
    a.concat(b.as_str())
}

/// The same ply with a queen promotion appended, tried when the plain
/// move string did not advance the turn.
pub fn promotion_move_string(from: usize, to: usize) -> (r: String)
    requires
        from < 64,
        to < 64,
    ensures
        r@ == alg_of_index(from as int) + alg_of_index(to as int) + seq!['Q'],
{
    proof {
        reveal_strlit("Q");
    }
    let s = move_string(from, to);
    s.concat("Q")
}

/// Whether applying the plain move string left the turn unchanged, in
/// which case the move is retried with a queen promotion appended.
pub fn retry_with_promotion(turn_before: Color, turn_after: Color) -> (r: bool)
    ensures
        r == (turn_before == turn_after),
{
    turn_before == turn_after
}

/// The wire message for one selected ply: both squares as wire pairs, no
/// draw offer, no promotion, no forfeit.
pub fn build_move_msg(from: usize, to: usize) -> (r: MoveMsg)
    requires
        from < 64,
        to < 64,
    ensures
        r.from.0 == wire_x(from as int) && r.from.1 == wire_y(from as int),
        r.to.0 == wire_x(to as int) && r.to.1 == wire_y(to as int),
        !r.offer_draw && r.promotion is None && !r.forfeit,
        move_wf(r),
{
    let f = pos_int_to_tuple(from);
    let t = pos_int_to_tuple(to);
    MoveMsg { from: f, to: t, offer_draw: false, promotion: None, forfeit: false }
}

/// The board indices a received wellformed move message names.
pub fn move_msg_indices(m: &MoveMsg) -> (r: (usize, usize))
    requires
        move_wf(*m),
    ensures
        r.0 == index_of_wire(m.from.0 as int, m.from.1 as int),
        r.1 == index_of_wire(m.to.0 as int, m.to.1 as int),
        r.0 < 64 && r.1 < 64,
{
    (pos_tuple_to_int(m.from), pos_tuple_to_int(m.to))
}

/// What a click on a board square leads to.
#[derive(Clone, Copy, Debug, PartialEq, Eq, Structural)]
pub enum ClickAction {
    SelectPiece,
    MoveTo,
    Unselect,
}

/// The decision rule for a click on the square holding `piece`: pick the
/// piece up when it belongs to the local player and it is that player's
/// turn; otherwise play the selected piece there when the square is among
/// its legal destinations; otherwise drop the selection.
pub open spec fn spec_click_action(
    piece: char,
    turn: Color,
    my_color: Color,
    can_reach: bool,
) -> ClickAction {
    if piece_color(piece) == turn && piece_color(piece) == my_color {
        ClickAction::SelectPiece
    } else if can_reach {
        ClickAction::MoveTo
    } else {
        ClickAction::Unselect
    }
}

/// Decides what a click on a board square does; `can_reach` says whether
/// a piece is selected and the clicked square is among its legal
/// destinations.
pub fn click_action(piece: char, turn: Color, my_color: Color, can_reach: bool) -> (r: ClickAction)
    ensures
        r == spec_click_action(piece, turn, my_color, can_reach),
{
    let color = crate::transcode::get_piece_color(piece);
    if color == turn && color == my_color {
        ClickAction::SelectPiece
    } else if can_reach {
        ClickAction::MoveTo
    } else {
        ClickAction::Unselect
    }
}

} // verus!
