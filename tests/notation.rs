use rust_chess::controller::MainCalculate;
use rust_chess::moves::MoveType;
use rust_chess::notation::{
    chess_x_convent, chess_y_convent, check_move, check_move_fields, filter_moves, parse_notation, NotationQuery,
};
use rust_chess::piece::Piece;
use rust_chess::position::AbsolutePosition;

fn at(r: usize, c: usize) -> AbsolutePosition<2> {
    AbsolutePosition { position: [r, c] }
}

fn opening_moves() -> Vec<MoveType<2>> {
    let ctl = MainCalculate::default();
    let tree = ctl.calculate_moved(0);
    let (_, children) = tree.as_can_moves().unwrap();
    children.iter().map(|b| b.move_type.clone()).collect()
}

#[test]
fn rank_numbers_count_from_the_bottom_row() {
    assert_eq!(chess_x_convent(&"1".to_string(), 8), Some(7));
    assert_eq!(chess_x_convent(&"8".to_string(), 8), Some(0));
    assert_eq!(chess_x_convent(&"4".to_string(), 8), Some(4));
    assert_eq!(chess_x_convent(&"9".to_string(), 8), None);
    assert_eq!(chess_x_convent(&"0".to_string(), 8), None);
    assert_eq!(chess_x_convent(&"".to_string(), 8), None);
    assert_eq!(chess_x_convent(&"1a".to_string(), 8), None);
    assert_eq!(chess_x_convent(&"99999999999999999999999".to_string(), 8), None);
}

#[test]
fn file_letters_count_from_a() {
    assert_eq!(chess_y_convent(&"a".to_string()), Some(0));
    assert_eq!(chess_y_convent(&"h".to_string()), Some(7));
    assert_eq!(chess_y_convent(&"E".to_string()), Some(4));
    assert_eq!(chess_y_convent(&"ab".to_string()), Some(52));
    assert_eq!(chess_y_convent(&"".to_string()), None);
    assert_eq!(chess_y_convent(&"a1".to_string()), None);
    assert_eq!(chess_y_convent(&"zzzzzzzzzzzzzzzzzzzz".to_string()), None);
}

#[test]
fn pawn_push_in_notation_names_one_move() {
    let moves = opening_moves();
    let found = check_move(&moves, &"e4".to_string(), 8);
    assert_eq!(found.len(), 1);
    assert_eq!(found[0].from, Some(at(6, 4)));
    assert_eq!(found[0].to, Some(at(4, 4)));
    let found = check_move(&moves, &"e5".to_string(), 8);
    assert_eq!(found.len(), 1);
    assert_eq!(found[0].piece, Some(Piece::of_kind("black", "pawn")));
}

#[test]
fn kind_in_notation_is_read_without_case() {
    let moves = opening_moves();
    let found = check_move(&moves, &"KNIGHTf3".to_string(), 8);
    assert_eq!(found.len(), 1);
    assert_eq!(found[0].from, Some(at(7, 6)));
    assert!(check_move(&moves, &"knightf4".to_string(), 8).is_empty());
}

#[test]
fn absent_source_matches_every_source() {
    let moves = opening_moves();
    let found = check_move(&moves, &"knightc3".to_string(), 8);
    assert_eq!(found.len(), 1);
    let found = check_move(&moves, &"knightc6".to_string(), 8);
    assert_eq!(found.len(), 1);
    assert_eq!(found[0].from, Some(at(0, 1)));
}

#[test]
fn unreadable_notation_gives_the_sentinel() {
    let moves = opening_moves();
    let found = check_move(&moves, &"???".to_string(), 8);
    assert_eq!(found.len(), 1);
    assert!(found[0].from.is_none() && found[0].to.is_none() && found[0].piece.is_none());
    assert_eq!(found[0].move_tag, Some("other".to_string()));
    assert_eq!(found[0].attributes, Some(vec!["???".to_string()]));
}

#[test]
fn fields_with_a_bad_rank_give_no_move() {
    let moves = opening_moves();
    let fields: Vec<String> = ["", "", "", "", "e", "12", ""].iter().map(|s| s.to_string()).collect();
    assert!(check_move_fields(&moves, Some(fields.clone()), &"e12".to_string(), 8).is_empty());
    assert!(parse_notation(&fields, 8).is_none());
    assert!(parse_notation(&vec!["e".to_string()], 8).is_none());
}

#[test]
fn query_with_a_source_square_filters_by_it() {
    let moves = opening_moves();
    let q = NotationQuery { kind: "pawn".to_string(), start_col: Some(3), start_row: Some(6), end_col: 3, end_row: 5 };
    let found = filter_moves(&moves, &q);
    assert_eq!(found.len(), 1);
    let q = NotationQuery { kind: "pawn".to_string(), start_col: Some(2), start_row: None, end_col: 3, end_row: 5 };
    assert!(filter_moves(&moves, &q).is_empty());
    let fields: Vec<String> = ["pawn", "d", "2", "", "d", "3", ""].iter().map(|s| s.to_string()).collect();
    let parsed = parse_notation(&fields, 8).unwrap();
    assert_eq!(parsed, NotationQuery { kind: "pawn".to_string(), start_col: Some(3), start_row: Some(6), end_col: 3, end_row: 5 });
}
