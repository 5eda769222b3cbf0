use chess_sync::moves::{
    build_move_msg, click_action, contains_dest, generate_valid_moves, move_msg_indices,
    move_string, promotion_move_string, retry_with_promotion, ClickAction,
};
use chess_sync::transcode::Color;

#[test]
fn valid_move_table_collects_by_origin() {
    let moves = vec![
        "e2e4".to_string(),
        "e2e3".to_string(),
        "d2d4".to_string(),
        "g1f3".to_string(),
    ];
    let table = generate_valid_moves(&moves);
    assert_eq!(table.len(), 64);
    // e2 is index 52; e4 is 36, e3 is 44, in listing order.
    assert_eq!(table[52], vec![36, 44]);
    // d2 is index 51; d4 is 35.
    assert_eq!(table[51], vec![35]);
    // g1 is index 62; f3 is 45.
    assert_eq!(table[62], vec![45]);
    // A square nothing moves from has an empty entry.
    assert_eq!(table[0], Vec::<usize>::new());
}

#[test]
fn valid_move_table_skips_malformed_strings() {
    let moves = vec![
        "xx".to_string(),
        "".to_string(),
        "e9e4".to_string(),
        "e2i4".to_string(),
        "e2e4".to_string(),
    ];
    let table = generate_valid_moves(&moves);
    let mut total = 0;
    for row in &table {
        total += row.len();
    }
    assert_eq!(total, 1);
    assert_eq!(table[52], vec![36]);
}

#[test]
fn valid_move_table_keeps_promotion_suffix_moves() {
    // A five-character move string is wellformed in its first four
    // characters, so it lands in the table too.
    let moves = vec!["e7e8Q".to_string()];
    let table = generate_valid_moves(&moves);
    // e7 is index 12; e8 is 4.
    assert_eq!(table[12], vec![4]);
}

#[test]
fn contains_dest_finds_member() {
    let dests = vec![36usize, 44];
    assert!(contains_dest(&dests, 36));
    assert!(contains_dest(&dests, 44));
    assert!(!contains_dest(&dests, 52));
    assert!(!contains_dest(&Vec::new(), 0));
}

#[test]
fn move_strings_for_engine() {
    assert_eq!(move_string(52, 36), "e2e4");
    assert_eq!(promotion_move_string(12, 4), "e7e8Q");
}

#[test]
fn promotion_retry_decision() {
    assert!(retry_with_promotion(Color::White, Color::White));
    assert!(!retry_with_promotion(Color::White, Color::Black));
}

#[test]
fn move_msg_round_trip_through_wire_pairs() {
    let m = build_move_msg(52, 36);
    assert_eq!(m.from, (4, 1));
    assert_eq!(m.to, (4, 3));
    assert!(!m.offer_draw);
    assert_eq!(m.promotion, None);
    assert!(!m.forfeit);
    assert_eq!(move_msg_indices(&m), (52, 36));
}

#[test]
fn click_selects_own_piece_on_turn() {
    // A White piece, White to move, local player White: pick it up.
    assert_eq!(click_action('p', Color::White, Color::White, false), ClickAction::SelectPiece);
    // Not the local player's piece: with a reachable selection, play there.
    assert_eq!(click_action('P', Color::White, Color::White, true), ClickAction::MoveTo);
    // Neither: drop the selection.
    assert_eq!(click_action('P', Color::White, Color::White, false), ClickAction::Unselect);
    // Own piece but not on turn: it cannot be picked up.
    assert_eq!(click_action('p', Color::Black, Color::White, false), ClickAction::Unselect);
    // An empty square with a reachable selection: play there.
    assert_eq!(click_action('.', Color::White, Color::White, true), ClickAction::MoveTo);
}
