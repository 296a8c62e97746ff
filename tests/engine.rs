use rust_chess::board::Board;
use rust_chess::controller::MainCalculate;
use rust_chess::generator::CalculateMoves;
use rust_chess::moves::{MoveType, WalkType, UNBOUNDED};
use rust_chess::piece::Piece;
use rust_chess::position::{AbsolutePosition, RelativePosition};
use rust_chess::setup::{default_board, default_piece_move, default_piece_type, default_setting};
use rust_chess::tree::CanMove;

fn at(r: usize, c: usize) -> AbsolutePosition<2> {
    AbsolutePosition { position: [r, c] }
}

fn rule(dr: isize, dc: isize, repeat: usize, color: &str, kind: &str, tags: &[&str]) -> WalkType<2> {
    WalkType::new(
        RelativePosition { offset: [dr, dc] },
        repeat,
        color.to_string(),
        kind.to_string(),
        tags.iter().map(|t| t.to_string()).collect(),
    )
}

fn tag(m: &MoveType<2>) -> String {
    m.move_tag.clone().unwrap()
}

#[test]
fn empty_board_has_no_moves_at_any_depth() {
    let kinds = default_piece_type();
    let rules = default_piece_move();
    let gen = CalculateMoves::new(Board::new([8, 8]), &kinds, &rules);
    assert!(gen.board_piece_search().is_empty());
    for depth in 0..3 {
        match gen.search_piece(depth) {
            CanMove::CanMoves(b, children) => {
                assert_eq!(b, Board::new([8, 8]));
                assert!(children.is_empty());
            }
            _ => panic!("expected an expanded node"),
        }
    }
}

#[test]
fn sliding_walk_stops_at_the_first_capture() {
    let mut board = Board::new([1, 8]);
    assert!(board.place(at(0, 0), Piece::of_kind("white", "rook")));
    assert!(board.place(at(0, 5), Piece::of_kind("black", "pawn")));
    assert!(board.place(at(0, 7), Piece::of_kind("black", "pawn")));
    let kinds = default_piece_type();
    let rules = vec![rule(0, 1, UNBOUNDED, "white", "rook", &["move", "capture"])];
    let gen = CalculateMoves::new(board, &kinds, &rules);
    let rook = Piece::of_kind("white", "rook");
    let moves = gen.walk(&at(0, 0), &rook, &rules[0]);
    assert_eq!(moves.len(), 5);
    for (i, m) in moves.iter().take(4).enumerate() {
        assert_eq!(m.to, Some(at(0, i + 1)));
        assert_eq!(tag(m), "m");
        assert_eq!(m.from, Some(at(0, 0)));
        assert_eq!(m.piece, Some(rook.clone()));
        assert!(m.captured.is_none());
    }
    assert_eq!(moves[4].to, Some(at(0, 5)));
    assert_eq!(tag(&moves[4]), "x");
    assert_eq!(moves[4].captured, Some(Piece::of_kind("black", "pawn")));
}

#[test]
fn sliding_walk_stops_before_an_own_piece() {
    let mut board = Board::new([1, 8]);
    assert!(board.place(at(0, 0), Piece::of_kind("white", "rook")));
    assert!(board.place(at(0, 3), Piece::of_kind("white", "pawn")));
    let kinds = default_piece_type();
    let rules = vec![rule(0, 1, UNBOUNDED, "white", "rook", &["move", "capture"])];
    let gen = CalculateMoves::new(board, &kinds, &rules);
    let moves = gen.walk(&at(0, 0), &Piece::of_kind("white", "rook"), &rules[0]);
    assert_eq!(moves.len(), 2);
    assert_eq!(moves[1].to, Some(at(0, 2)));
}

#[test]
fn sliding_walk_on_an_empty_line_reaches_the_edge() {
    let mut board = Board::new([1, 6]);
    assert!(board.place(at(0, 0), Piece::of_kind("white", "rook")));
    let kinds = default_piece_type();
    let rules = vec![rule(0, 1, UNBOUNDED, "white", "rook", &["move", "capture"])];
    let gen = CalculateMoves::new(board, &kinds, &rules);
    let moves = gen.walk(&at(0, 0), &Piece::of_kind("white", "rook"), &rules[0]);
    assert_eq!(moves.len(), 5);
    assert_eq!(moves[4].to, Some(at(0, 5)));
}

#[test]
fn knight_step_from_an_interior_cell_gives_one_move() {
    let mut board = Board::new([8, 8]);
    assert!(board.place(at(3, 3), Piece::of_kind("white", "knight")));
    let kinds = default_piece_type();
    let rules = vec![rule(2, 1, 1, "white", "knight", &["move", "capture"])];
    let gen = CalculateMoves::new(board, &kinds, &rules);
    let moves = gen.walk(&at(3, 3), &Piece::of_kind("white", "knight"), &rules[0]);
    assert_eq!(moves.len(), 1);
    assert_eq!(moves[0].to, Some(at(5, 4)));
    assert_eq!(moves[0].from, Some(at(3, 3)));
}

#[test]
fn knight_step_off_the_board_gives_nothing() {
    let mut board = Board::new([8, 8]);
    assert!(board.place(at(7, 7), Piece::of_kind("white", "knight")));
    let kinds = default_piece_type();
    let rules = vec![rule(2, 1, 1, "white", "knight", &["move", "capture"])];
    let gen = CalculateMoves::new(board, &kinds, &rules);
    assert!(gen.walk(&at(7, 7), &Piece::of_kind("white", "knight"), &rules[0]).is_empty());
    assert!(gen.step(&at(9, 8), &rules[0]).all_none());
}

#[test]
fn opening_position_has_forty_pseudo_moves() {
    let (board, kinds, rules) = default_setting();
    let gen = CalculateMoves::new(board, &kinds, &rules);
    let moves = gen.board_piece_search();
    assert_eq!(moves.len(), 40);
    let white = moves.iter().filter(|m| m.piece.as_ref().unwrap().color == "white").count();
    assert_eq!(white, 20);
    let knights = moves.iter().filter(|m| m.piece.as_ref().unwrap().kind == "knight").count();
    assert_eq!(knights, 8);
    assert!(moves.iter().all(|m| tag(m) == "m"));
}

#[test]
fn depth_zero_search_with_one_move_relocates_the_piece() {
    let mut board = Board::new([3, 1]);
    assert!(board.place(at(2, 0), Piece::of_kind("white", "pawn")));
    let kinds = default_piece_type();
    let rules = vec![rule(-1, 0, 1, "white", "pawn", &["move", "promotion"])];
    let gen = CalculateMoves::new(board.clone(), &kinds, &rules);
    let moves = gen.board_piece_search();
    assert_eq!(moves.len(), 1);
    match gen.search_piece(0) {
        CanMove::CanMoves(b, children) => {
            assert_eq!(b, board);
            assert_eq!(children.len(), 1);
            assert_eq!(children[0].move_type, moves[0]);
            let leaf = children[0].tree.as_board().expect("a leaf");
            assert!(leaf.get(&at(2, 0)).is_none());
            let cell = leaf.get(&at(1, 0)).expect("the pawn moved");
            assert_eq!(cell.piece, Piece::of_kind("white", "pawn"));
            assert_eq!(cell.status, vec!["moving".to_string()]);
        }
        _ => panic!("expected an expanded node"),
    }
}

#[test]
fn calculate_moved_twice_gives_equal_trees() {
    let ctl = MainCalculate::default();
    let a = ctl.calculate_moved(1);
    let b = ctl.calculate_moved(1);
    assert_eq!(format!("{:?}", a), format!("{:?}", b));
    let (_, children) = a.as_can_moves().unwrap();
    assert_eq!(children.len(), 40);
}

#[test]
fn move_onto_an_occupied_cell_leaves_the_board_unchanged() {
    let board = default_board();
    let kinds = default_piece_type();
    let rules = default_piece_move();
    let gen = CalculateMoves::new(board.clone(), &kinds, &rules);
    let m = MoveType::new(Some(at(7, 1)), Some(at(6, 3)), Some("m".to_string()), None, None, None);
    assert_eq!(gen.piece_moved(m), board);
}

#[test]
fn capture_moves_are_dropped_when_played() {
    let mut board = Board::new([1, 3]);
    assert!(board.place(at(0, 0), Piece::of_kind("white", "rook")));
    assert!(board.place(at(0, 1), Piece::of_kind("black", "rook")));
    let kinds = default_piece_type();
    let rules = vec![rule(0, 1, UNBOUNDED, "white", "rook", &["move", "capture"])];
    let gen = CalculateMoves::new(board.clone(), &kinds, &rules);
    let moves = gen.board_piece_search();
    assert_eq!(moves.len(), 1);
    assert_eq!(tag(&moves[0]), "x");
    assert_eq!(gen.piece_moved(moves[0].clone()), board);
}

#[test]
fn jump_rule_passes_one_blocker() {
    let mut board = Board::new([1, 6]);
    assert!(board.place(at(0, 0), Piece::of_kind("white", "cannon")));
    assert!(board.place(at(0, 2), Piece::of_kind("white", "pawn")));
    assert!(board.place(at(0, 4), Piece::of_kind("white", "pawn")));
    let kinds = default_piece_type();
    let rules = vec![rule(0, 1, UNBOUNDED, "white", "cannon", &["move", "jump"])];
    let gen = CalculateMoves::new(board, &kinds, &rules);
    let moves = gen.walk(&at(0, 0), &Piece::of_kind("white", "cannon"), &rules[0]);
    let targets: Vec<_> = moves.iter().map(|m| m.to.unwrap()).collect();
    assert_eq!(targets, vec![at(0, 1), at(0, 3)]);
}

#[test]
fn zero_delta_rule_gives_nothing() {
    let mut board = Board::new([4, 4]);
    assert!(board.place(at(1, 1), Piece::of_kind("white", "king")));
    let kinds = default_piece_type();
    let rules = vec![rule(0, 0, UNBOUNDED, "white", "king", &["move", "capture"])];
    let gen = CalculateMoves::new(board, &kinds, &rules);
    assert!(gen.piece(&at(1, 1)).is_empty());
}

#[test]
fn inert_rule_gives_nothing() {
    let mut board = Board::new([4, 4]);
    assert!(board.place(at(1, 1), Piece::of_kind("white", "king")));
    let kinds = default_piece_type();
    let rules = vec![rule(1, 0, 1, "white", "king", &["threatened"])];
    let gen = CalculateMoves::new(board, &kinds, &rules);
    assert!(gen.piece(&at(1, 1)).is_empty());
    assert!(gen.piece(&at(0, 0)).is_empty());
}

#[test]
fn next_move_clears_the_moving_tag() {
    let mut board = Board::new([4, 1]);
    assert!(board.place(at(3, 0), Piece::of_kind("white", "pawn")));
    let kinds = default_piece_type();
    let rules = vec![rule(-1, 0, 1, "white", "pawn", &["move"])];
    let gen = CalculateMoves::new(board, &kinds, &rules);
    let first = gen.piece_moved(MoveType::new(Some(at(3, 0)), Some(at(2, 0)), None, None, None, None));
    assert_eq!(first.get(&at(2, 0)).unwrap().status, vec!["moving".to_string()]);
    let gen2 = CalculateMoves::new(first, &kinds, &rules);
    let none = gen2.piece_moved(MoveType::none());
    assert!(none.get(&at(2, 0)).unwrap().status.is_empty());
}

#[test]
fn depth_one_tree_expands_each_child() {
    let mut board = Board::new([3, 1]);
    assert!(board.place(at(2, 0), Piece::of_kind("white", "pawn")));
    let kinds = default_piece_type();
    let rules = vec![rule(-1, 0, 1, "white", "pawn", &["move"])];
    let gen = CalculateMoves::new(board, &kinds, &rules);
    let tree = gen.search_piece(1);
    let (_, children) = tree.as_can_moves().unwrap();
    assert_eq!(children.len(), 1);
    let (b1, grand) = children[0].tree.as_can_moves().unwrap();
    assert!(b1.get(&at(1, 0)).is_some());
    assert_eq!(grand.len(), 1);
    let leaf = grand[0].tree.as_board().unwrap();
    assert!(leaf.get(&at(0, 0)).is_some());
}

#[test]
fn controller_applies_a_move_to_its_board() {
    let mut ctl = MainCalculate::default();
    ctl.piece_move(MoveType::new(Some(at(6, 4)), Some(at(4, 4)), None, None, None, None));
    assert!(ctl.board.get(&at(6, 4)).is_none());
    assert_eq!(ctl.board.get(&at(4, 4)).unwrap().piece, Piece::of_kind("white", "pawn"));
    ctl.piece_move(MoveType::new(Some(at(7, 3)), Some(at(1, 3)), None, None, None, None));
    assert_eq!(ctl.board.get(&at(1, 3)).unwrap().piece, Piece::of_kind("white", "queen"));
    assert_eq!(ctl.board.cells.len(), 31);
    ctl.calculate_moves(0);
    assert!(ctl.save_moves.as_can_moves().is_some());
}

#[test]
fn controller_piece_moved_leaves_its_board() {
    let ctl = MainCalculate::default();
    let after = ctl.piece_moved(MoveType::new(Some(at(6, 4)), Some(at(4, 4)), None, None, None, None));
    assert!(after.get(&at(6, 4)).is_none());
    assert!(ctl.board.get(&at(6, 4)).is_some());
    assert!(matches!(MainCalculate::new(Board::new([2, 2]), vec![], vec![]).save_moves, CanMove::Empty));
}

#[test]
fn piece_display_falls_back_to_full_names() {
    let plain = Piece::of_kind("white", "rook");
    assert_eq!(plain.display(), "whiterook");
    let short = Piece::new(
        "white".to_string(),
        "rook".to_string(),
        vec![
            ("short_color".to_string(), vec!["w".to_string()]),
            ("short_name".to_string(), vec!["R".to_string()]),
        ],
    );
    assert_eq!(short.display(), "wR");
    let pawn = Piece::of_kind("black", "pawn");
    assert_eq!(pawn.attributes, vec![("tags".to_string(), vec!["promotion".to_string()])]);
}

#[test]
fn board_rejects_off_board_and_occupied_cells() {
    let mut board = Board::new([2, 2]);
    assert!(!board.place(at(2, 0), Piece::of_kind("white", "pawn")));
    assert!(board.place(at(1, 1), Piece::of_kind("white", "pawn")));
    assert!(!board.place(at(1, 1), Piece::of_kind("black", "pawn")));
    assert_eq!(board.occupied(), vec![at(1, 1)]);
}

#[test]
fn positions_add_and_subtract() {
    let a = at(3, 4);
    let d = RelativePosition { offset: [-3, 2] };
    assert_eq!(a.add_absolute(&d), Some(at(0, 6)));
    assert_eq!(a.add_absolute(&RelativePosition { offset: [-4, 0] }), None);
    assert_eq!(d.to_absolute(&a), Some(at(0, 6)));
    assert_eq!(a.to_relative(&at(0, 6)), d);
    assert_eq!(RelativePosition::from_absolute(&at(0, 6), &a), RelativePosition { offset: [3, -2] });
    let huge = AbsolutePosition { position: [usize::MAX, 0] };
    assert_eq!(huge.add_absolute(&RelativePosition { offset: [1, 0] }), None);
}

#[test]
fn a_move_found_twice_is_one_child() {
    let mut board = Board::new([2, 1]);
    assert!(board.place(at(1, 0), Piece::of_kind("white", "pawn")));
    let kinds = default_piece_type();
    let rules = vec![
        rule(-1, 0, 1, "white", "pawn", &["move"]),
        rule(-1, 0, 1, "white", "pawn", &["move"]),
    ];
    let gen = CalculateMoves::new(board, &kinds, &rules);
    let moves = gen.board_piece_search();
    assert_eq!(moves.len(), 2);
    assert_eq!(moves[0], moves[1]);
    let tree = gen.search_piece(0);
    let (_, children) = tree.as_can_moves().unwrap();
    assert_eq!(children.len(), 1);
    assert_eq!(children[0].move_type, moves[0]);
}

#[test]
fn opening_board_layout() {
    let board = default_board();
    let kinds = ["rook", "knight", "bishop", "queen", "king", "bishop", "knight", "rook"];
    for c in 0..8 {
        assert_eq!(board.get(&at(0, c)).unwrap().piece, Piece::of_kind("black", kinds[c]));
        assert_eq!(board.get(&at(1, c)).unwrap().piece, Piece::of_kind("black", "pawn"));
        assert_eq!(board.get(&at(6, c)).unwrap().piece, Piece::of_kind("white", "pawn"));
        assert_eq!(board.get(&at(7, c)).unwrap().piece, Piece::of_kind("white", kinds[c]));
        for r in 2..6 {
            assert!(board.get(&at(r, c)).is_none());
        }
    }
    let rules = default_piece_move();
    assert_eq!(rules[0].delta, RelativePosition { offset: [-1, 0] });
    assert_eq!(rules[0].repeat, 2);
    assert_eq!(rules[0].attributes, vec!["move".to_string(), "promotion".to_string()]);
}
