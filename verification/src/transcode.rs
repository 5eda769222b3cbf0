//! Conversions between the three equivalent forms of a board square: the
//! linear index in [0, 63] (row 0 is rank 8 as rendered), two-character
//! algebraic notation, and the (x, y) wire pair (x = column, y = rank from
//! the bottom), plus the classification of a piece character by color.

use vstd::prelude::*;

verus! {

/// Color of a player or of a piece character; `Vacant` stands for
/// "no piece here" and is used only when classifying board characters.
#[derive(Clone, Copy, Debug, PartialEq, Eq, Structural)]
pub enum Color {
    White,
    Black,
    Vacant,
}

/// A coordinate string that is not exactly a file letter followed by a
/// rank digit is rejected with this error.
#[derive(Clone, Copy, Debug, PartialEq, Eq, Structural)]
pub enum TranscodeError {
    MalformedCoordinate,
}

/// True for a file letter `a..h`, either case.
pub open spec fn valid_file_char(c: char) -> bool {
    ('a' <= c && c <= 'h') || ('A' <= c && c <= 'H')
}

/// Column number 0..8 of a file letter.
pub open spec fn file_of_char(c: char) -> int {
    if 'a' <= c && c <= 'h' {
        c as int - 'a' as int
    } else {
        c as int - 'A' as int
    }
}

/// True for a rank digit `1..8`.
pub open spec fn valid_rank_char(c: char) -> bool {
    '1' <= c && c <= '8'
}

/// Rank number 0..8 of a rank digit, counted from the bottom of the board.
pub open spec fn rank_of_char(c: char) -> int {
    c as int - '1' as int
}

/// A wellformed algebraic coordinate: exactly two characters, a file
/// letter then a rank digit.
pub open spec fn wellformed_alg(s: Seq<char>) -> bool {
    s.len() == 2 && valid_file_char(s[0]) && valid_rank_char(s[1])
}

/// The linear index denoted by a wellformed algebraic coordinate.
pub open spec fn alg_index(s: Seq<char>) -> int {
    (7 - rank_of_char(s[1])) * 8 + file_of_char(s[0])
}

/// Converts an algebraic coordinate such as `"e2"` to its linear index.
/// Rejects anything but a file letter (either case) followed by a rank
/// digit.
pub fn str_to_idx(s: &str) -> (r: Result<usize, TranscodeError>)
    ensures
        wellformed_alg(s@) ==> r == Ok::<usize, TranscodeError>(alg_index(s@) as usize),
        !wellformed_alg(s@) ==> r == Err::<usize, TranscodeError>(TranscodeError::MalformedCoordinate),
        r matches Ok(i) ==> i < 64,
{
    if s.unicode_len() != 2 {
        return Err(TranscodeError::MalformedCoordinate);
    }
    let f = s.get_char(0);
    let k = s.get_char(1);
    let x: usize = if 'a' <= f && f <= 'h' {
        (f as usize) - ('a' as usize)
    } else if 'A' <= f && f <= 'H' {
        (f as usize) - ('A' as usize)
    } else {
        return Err(TranscodeError::MalformedCoordinate);
    };
    if !('1' <= k && k <= '8') {
        return Err(TranscodeError::MalformedCoordinate);
    }
    let y: usize = (k as usize) - ('1' as usize);
    Ok((7 - y) * 8 + x)
}

/// The lower-case file letter of a column number.
pub open spec fn file_char(x: int) -> char {
    if x == 0 { 'a' }
    else if x == 1 { 'b' }
    else if x == 2 { 'c' }
    else if x == 3 { 'd' }
    else if x == 4 { 'e' }
    else if x == 5 { 'f' }
    else if x == 6 { 'g' }
    else { 'h' }
}

/// The rank digit of a rank number counted from the bottom.
pub open spec fn rank_char(y: int) -> char {
    if y == 0 { '1' }
    else if y == 1 { '2' }
    else if y == 2 { '3' }
    else if y == 3 { '4' }
    else if y == 4 { '5' }
    else if y == 5 { '6' }
    else if y == 6 { '7' }
    else { '8' }
}

/// The algebraic coordinate of a linear index.
pub open spec fn alg_of_index(i: int) -> Seq<char> {
    seq![file_char(i % 8), rank_char(7 - i / 8)]
}

/// Converts a linear index in [0, 63] to its algebraic coordinate, such as
/// index 52 to `"e2"`.
pub fn idx_to_str(idx: usize) -> (r: String)
    requires
        idx < 64,
    ensures
        r@ == alg_of_index(idx as int),
{
    let x: usize = idx % 8;
    let y: usize = 7 - idx / 8;
    let fs: &str = if x == 0 { "a" }
        else if x == 1 { "b" }
        else if x == 2 { "c" }
        else if x == 3 { "d" }
        else if x == 4 { "e" }
        else if x == 5 { "f" }
        else if x == 6 { "g" }
        else { "h" };
    let rs: &str = if y == 0 { "1" }
        else if y == 1 { "2" }
        else if y == 2 { "3" }
        else if y == 3 { "4" }
        else if y == 4 { "5" }
        else if y == 5 { "6" }
        else if y == 6 { "7" }
        else { "8" };
    proof {
        reveal_strlit("a");
        reveal_strlit("b");
        reveal_strlit("c");
        reveal_strlit("d");
        reveal_strlit("e");
        reveal_strlit("f");
        reveal_strlit("g");
        reveal_strlit("h");
        reveal_strlit("1");
        reveal_strlit("2");
        reveal_strlit("3");
        reveal_strlit("4");
        reveal_strlit("5");
        reveal_strlit("6");
        reveal_strlit("7");
        reveal_strlit("8");
        assert(fs@ + rs@ =~= alg_of_index(idx as int));
    }
    String::from_str(fs).concat(rs)
}

/// The wire column of a linear index.
pub open spec fn wire_x(i: int) -> int {
    i % 8
}

/// The wire rank-from-bottom of a linear index.
pub open spec fn wire_y(i: int) -> int {
    7 - i / 8
}

/// The linear index denoted by a wire pair.
pub open spec fn index_of_wire(x: int, y: int) -> int {
    (7 - y) * 8 + x
}

/// Converts a linear index in [0, 63] to the (x, y) wire pair carried in a
/// move message.
pub fn pos_int_to_tuple(idx: usize) -> (r: (u8, u8))
    requires
        idx < 64,
    ensures
        r.0 == wire_x(idx as int),
        r.1 == wire_y(idx as int),
        r.0 < 8 && r.1 < 8,
{
    ((idx % 8) as u8, (7 - idx / 8) as u8)
}

/// Converts an (x, y) wire pair with both parts below 8 back to the linear
/// index.
pub fn pos_tuple_to_int(pos: (u8, u8)) -> (r: usize)
    requires
        pos.0 < 8,
        pos.1 < 8,
    ensures
        r == index_of_wire(pos.0 as int, pos.1 as int),
        r < 64,
{
    (7 - pos.1 as usize) * 8 + pos.0 as usize
}

/// A square's wire pair is always in {0..7} x {0..7}, and converting it
/// back yields the index it came from.
pub proof fn lemma_wire_round_trip(i: int)
    requires
        0 <= i < 64,
    ensures
        0 <= wire_x(i) < 8,
        0 <= wire_y(i) < 8,
        index_of_wire(wire_x(i), wire_y(i)) == i,
{
}

/// The algebraic coordinate of an index is wellformed, and converting it
/// back yields the index it came from.
pub proof fn lemma_algebraic_round_trip(i: int)
    requires
        0 <= i < 64,
    ensures
        wellformed_alg(alg_of_index(i)),
        alg_index(alg_of_index(i)) == i,
{
}

/// Which side a piece character of a board string belongs to: the engine
/// writes White pieces in lower case and Black pieces in upper case; any
/// other character marks an empty square.
pub open spec fn piece_color(c: char) -> Color {
    match c {
        'p' | 'r' | 'n' | 'b' | 'q' | 'k' => Color::White,
        'P' | 'R' | 'N' | 'B' | 'Q' | 'K' => Color::Black,
        _ => Color::Vacant,
    }
}

/// Classifies one character of a board string by the color of the piece it
/// denotes.
pub fn get_piece_color(piece: char) -> (r: Color)
    ensures
        r == piece_color(piece),
{
    match piece {
        'p' | 'r' | 'n' | 'b' | 'q' | 'k' => Color::White,
        'P' | 'R' | 'N' | 'B' | 'Q' | 'K' => Color::Black,
        _ => Color::Vacant,
    }
}

} // verus!
