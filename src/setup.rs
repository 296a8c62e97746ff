use vstd::prelude::*;
use crate::board::{in_bounds, lemma_occupant_push, occupant, Board, BoardView};
use crate::controller::MainCalculate;
use crate::moves::{rules_view, RuleView, WalkType, UNBOUNDED};
use crate::piece::{kind_tags, CellView, Piece, PieceView};
use crate::position::{AbsolutePosition, RelativePosition};

verus! {

/// The kind on column `col` of a back rank of the classic game.
pub open spec fn back_rank(col: int) -> Seq<char> {
    if col == 0 || col == 7 {
        "rook"@
    } else if col == 1 || col == 6 {
        "knight"@
    } else if col == 2 || col == 5 {
        "bishop"@
    } else if col == 3 {
        "queen"@
    } else {
        "king"@
    }
}

/// The cell at (`row`, `col`) of a two-axis board.
pub open spec fn square(row: usize, col: usize) -> Seq<usize> {
    seq![row, col]
}

/// A piece of the classic game, as `Piece::of_kind` makes it.
pub open spec fn classic_piece(color: Seq<char>, kind: Seq<char>) -> PieceView {
    PieceView { color, kind, attributes: seq![("tags"@, kind_tags(kind))] }
}

/// What stands on (`row`, `col`) in the opening of the classic game: black on
/// rows 0 and 1, white on rows 6 and 7, pawns on rows 1 and 6, the back ranks
/// rook, knight, bishop, queen, king, bishop, knight, rook; rows 2 to 5 empty.
pub open spec fn opening_occupant(row: int, col: int) -> Option<CellView> {
    let color = if row < 2 {
        "black"@
    } else {
        "white"@
    };
    if row == 0 || row == 7 {
        Some(CellView { piece: classic_piece(color, back_rank(col)), status: seq![] })
    } else if row == 1 || row == 6 {
        Some(CellView { piece: classic_piece(color, "pawn"@), status: seq![] })
    } else {
        None
    }
}

/// The kind on column `col` of a back rank of the classic game.
fn back_rank_kind(col: usize) -> (r: &'static str)
    ensures
        r@ == back_rank(col as int),
{
    if col == 0 || col == 7 {
        "rook"
    } else if col == 1 || col == 6 {
        "knight"
    } else if col == 2 || col == 5 {
        "bishop"
    } else if col == 3 {
        "queen"
    } else {
        "king"
    }
}

/// Row `row` is among the first `j` rows placed on a column (rows 0, 1, 6, 7
/// in that order).
pub open spec fn placed_row(row: int, j: int) -> bool {
    (row == 0 && j > 0) || (row == 1 && j > 1) || (row == 6 && j > 2) || (row == 7 && j > 3)
}

/// The opening position of the classic two-dimensional game on an 8 by 8
/// board. Positions are (row, column); black stands on rows 0 and 1, white on
/// rows 6 and 7.
pub fn default_board() -> (r: Board<2>)
    ensures
        r.wf(),
        r@.size == seq![8usize, 8usize],
        r@.cells.len() == 32,
        forall|row: usize, col: usize|
            row < 8 && col < 8 ==> #[trigger] occupant(r@, square(row, col)) == opening_occupant(row as int, col as int),
{
    let mut board = Board::new([8usize, 8usize]);
    assert(board@.size =~= seq![8usize, 8usize]);
    let mut col: usize = 0;
    while col < 8
        invariant
            board.wf(),
            board@.size == seq![8usize, 8usize],
            col <= 8,
            board@.cells.len() == 4 * col,
            forall|row: usize, c: usize|
                row < 8 && c < 8 ==> #[trigger] occupant(board@, square(row, c)) == if c < col {
                    opening_occupant(row as int, c as int)
                } else {
                    None
                },
        decreases 8 - col,
    {
        let kind = back_rank_kind(col);
        let rows: [usize; 4] = [0, 1, 6, 7];
        let mut j: usize = 0;
        while j < 4
            invariant
                board.wf(),
                board@.size == seq![8usize, 8usize],
                col < 8,
                j <= 4,
                kind@ == back_rank(col as int),
                rows@ == seq![0usize, 1, 6, 7],
                board@.cells.len() == 4 * col + j,
                forall|row: usize, c: usize|
                    row < 8 && c < 8 ==> #[trigger] occupant(board@, square(row, c)) == if c < col || (c == col
                        && placed_row(row as int, j as int)) {
                        opening_occupant(row as int, c as int)
                    } else {
                        None
                    },
            decreases 4 - j,
        {
            let row = rows[j];
            let color = if row < 2 {
                "black"
            } else {
                "white"
            };
            let piece = if row == 1 || row == 6 {
                Piece::of_kind(color, "pawn")
            } else {
                Piece::of_kind(color, kind)
            };
            let p = AbsolutePosition { position: [row, col] };
            let ghost before = board@;
            let ghost cell = CellView { piece: piece@, status: seq![] };
            assert(p@ =~= square(row, col));
            assert(piece@ == classic_piece(color@, piece.kind@));
            assert(cell == opening_occupant(row as int, col as int)->Some_0);
            assert(occupant(before, square(row, col)) is None);
            assert(in_bounds(before.size, p@));
            let placed = board.place(p, piece);
            assert(placed);
            assert forall|r: usize, c: usize| r < 8 && c < 8 implies #[trigger] occupant(board@, square(r, c))
                == if c < col || (c == col && placed_row(r as int, j + 1)) {
                opening_occupant(r as int, c as int)
            } else {
                None
            } by {
                lemma_occupant_push(before, p@, cell, square(r, c));
                assert(board@ == (BoardView { size: before.size, cells: before.cells.push((p@, cell)) }));
                if square(r, c) == p@ {
                    assert(square(r, c)[0] == r && square(r, c)[1] == c);
                }
                if r != row || c != col {
                    assert(square(r, c)[0] == r && square(r, c)[1] == c);
                    assert(square(r, c) != p@);
                }
            }
            j = j + 1;
        }
        col = col + 1;
    }
    board
}

/// The kinds of the classic game.
pub fn default_piece_type() -> (r: Vec<String>)
    ensures
        r.deep_view() == seq!["pawn"@, "knight"@, "bishop"@, "rook"@, "queen"@, "king"@],
{
    let r = vec![
        String::from_str("pawn"),
        String::from_str("knight"),
        String::from_str("bishop"),
        String::from_str("rook"),
        String::from_str("queen"),
        String::from_str("king"),
    ];
    assert(r.deep_view() =~= seq!["pawn"@, "knight"@, "bishop"@, "rook"@, "queen"@, "king"@]);
    r
}

/// The texts of `words`.
pub open spec fn words_view(words: Seq<&str>) -> Seq<Seq<char>> {
    Seq::new(words.len(), |i: int| words[i]@)
}

/// A list of strings made from `words`.
fn strings(words: &Vec<&str>) -> (r: Vec<String>)
    ensures
        r.deep_view() == words_view(words@),
{
    let mut r: Vec<String> = Vec::new();
    let mut i: usize = 0;
    while i < words.len()
        invariant
            i <= words@.len(),
            r@.len() == i,
            forall|k: int| 0 <= k < i ==> r@[k]@ == words@[k]@,
        decreases words@.len() - i,
    {
        r.push(String::from_str(words[i]));
        i = i + 1;
    }
    assert(r.deep_view() =~= words_view(words@));
    r
}

/// One rule per delta for the pieces of `color` and `kind`.
pub open spec fn rules_for(
    color: Seq<char>,
    kind: Seq<char>,
    deltas: Seq<(isize, isize)>,
    repeat: usize,
    tags: Seq<Seq<char>>,
) -> Seq<RuleView> {
    Seq::new(
        deltas.len(),
        |i: int|
            RuleView { delta: seq![deltas[i].0, deltas[i].1], repeat: repeat as nat, color, kind, attributes: tags },
    )
}

/// Adds one rule per delta for the pieces of `color` and `kind`.
fn add_rules(
    rules: &mut Vec<WalkType<2>>,
    color: &str,
    kind: &str,
    deltas: &Vec<(isize, isize)>,
    repeat: usize,
    tags: &Vec<&str>,
)
    ensures
        rules_view(final(rules)@) == rules_view(old(rules)@) + rules_for(
            color@,
            kind@,
            deltas@,
            repeat,
            words_view(tags@),
        ),
{
    let ghost start = rules_view(rules@);
    let ghost added = rules_for(color@, kind@, deltas@, repeat, words_view(tags@));
    let mut i: usize = 0;
    while i < deltas.len()
        invariant
            i <= deltas@.len(),
            start == rules_view(old(rules)@),
            added == rules_for(color@, kind@, deltas@, repeat, words_view(tags@)),
            rules_view(rules@) == start + added.subrange(0, i as int),
        decreases deltas@.len() - i,
    {
        let (dr, dc) = deltas[i];
        let ghost before = rules_view(rules@);
        let rule = WalkType::new(
            RelativePosition { offset: [dr, dc] },
            repeat,
            String::from_str(color),
            String::from_str(kind),
            strings(tags),
        );
        assert(rule.delta@ =~= seq![dr, dc]);
        assert(rule@ == added[i as int]);
        rules.push(rule);
        assert(rules_view(rules@) =~= before.push(added[i as int]));
        assert(added.subrange(0, i + 1) =~= added.subrange(0, i as int).push(added[i as int]));
        i = i + 1;
    }
    assert(added.subrange(0, deltas@.len() as int) =~= added);
}

/// The eight steps of a knight.
pub open spec fn knight_steps() -> Seq<(isize, isize)> {
    seq![
        (2isize, 1isize),
        (2isize, -1isize),
        (1isize, -2isize),
        (-1isize, -2isize),
        (-2isize, -1isize),
        (-2isize, 1isize),
        (-1isize, 2isize),
        (1isize, 2isize),
    ]
}

/// The four diagonal steps.
pub open spec fn diagonal_steps() -> Seq<(isize, isize)> {
    seq![(1isize, 1isize), (1isize, -1isize), (-1isize, -1isize), (-1isize, 1isize)]
}

/// The four straight steps.
pub open spec fn straight_steps() -> Seq<(isize, isize)> {
    seq![(1isize, 0isize), (0isize, -1isize), (-1isize, 0isize), (0isize, 1isize)]
}

/// The eight steps to a neighbouring cell.
pub open spec fn around_steps() -> Seq<(isize, isize)> {
    seq![
        (1isize, 1isize),
        (1isize, 0isize),
        (1isize, -1isize),
        (0isize, -1isize),
        (-1isize, -1isize),
        (-1isize, 0isize),
        (-1isize, 1isize),
        (0isize, 1isize),
    ]
}

/// The tags of a rule that moves and captures.
pub open spec fn slide_tags() -> Seq<Seq<char>> {
    seq!["move"@, "capture"@]
}

/// The tags of a king's rule.
pub open spec fn royal_tags() -> Seq<Seq<char>> {
    seq!["move"@, "capture"@, "check"@, "threatened"@, "checkmate"@]
}

/// The tags of a pawn's push.
pub open spec fn push_tags() -> Seq<Seq<char>> {
    seq!["move"@, "promotion"@]
}

/// The tags of a pawn's capture.
pub open spec fn take_tags() -> Seq<Seq<char>> {
    seq!["capture"@, "promotion"@]
}

/// The rule table of the classic game, in order: pawns (a push of up to two
/// cells forward onto empty cells, then the two forward captures), knights,
/// bishops, rooks, queens and kings, white before black for each kind.
pub open spec fn classic_rules() -> Seq<RuleView> {
    Seq::<RuleView>::empty()
        + rules_for("white"@, "pawn"@, seq![(-1isize, 0isize)], 2, push_tags())
        + rules_for("white"@, "pawn"@, seq![(-1isize, -1isize), (-1isize, 1isize)], 1, take_tags())
        + rules_for("black"@, "pawn"@, seq![(1isize, 0isize)], 2, push_tags())
        + rules_for("black"@, "pawn"@, seq![(1isize, -1isize), (1isize, 1isize)], 1, take_tags())
        + rules_for("white"@, "knight"@, knight_steps(), 1, slide_tags())
        + rules_for("black"@, "knight"@, knight_steps(), 1, slide_tags())
        + rules_for("white"@, "bishop"@, diagonal_steps(), UNBOUNDED, slide_tags())
        + rules_for("black"@, "bishop"@, diagonal_steps(), UNBOUNDED, slide_tags())
        + rules_for("white"@, "rook"@, straight_steps(), UNBOUNDED, slide_tags())
        + rules_for("black"@, "rook"@, straight_steps(), UNBOUNDED, slide_tags())
        + rules_for("white"@, "queen"@, around_steps(), UNBOUNDED, slide_tags())
        + rules_for("black"@, "queen"@, around_steps(), UNBOUNDED, slide_tags())
        + rules_for("white"@, "king"@, around_steps(), 1, royal_tags())
        + rules_for("black"@, "king"@, around_steps(), 1, royal_tags())
}

/// The rule table of the classic game. A pawn moves up to two cells forward
/// onto empty cells and captures one cell diagonally forward; knights and
/// kings step once; bishops, rooks and queens slide until stopped.
pub fn default_piece_move() -> (r: Vec<WalkType<2>>)
    ensures
        rules_view(r@) == classic_rules(),
        r@.len() == 70,
{
    let knight = vec![(2isize, 1isize), (2, -1), (1, -2), (-1, -2), (-2, -1), (-2, 1), (-1, 2), (1, 2)];
    let diagonal = vec![(1isize, 1isize), (1, -1), (-1, -1), (-1, 1)];
    let straight = vec![(1isize, 0isize), (0, -1), (-1, 0), (0, 1)];
    let around = vec![(1isize, 1isize), (1, 0), (1, -1), (0, -1), (-1, -1), (-1, 0), (-1, 1), (0, 1)];
    let slide = vec!["move", "capture"];
    let royal = vec!["move", "capture", "check", "threatened", "checkmate"];
    let push = vec!["move", "promotion"];
    let take = vec!["capture", "promotion"];
    let white_push = vec![(-1isize, 0isize)];
    let white_take = vec![(-1isize, -1isize), (-1, 1)];
    let black_push = vec![(1isize, 0isize)];
    let black_take = vec![(1isize, -1isize), (1, 1)];
    assert(knight@ =~= knight_steps());
    assert(diagonal@ =~= diagonal_steps());
    assert(straight@ =~= straight_steps());
    assert(around@ =~= around_steps());
    assert(words_view(slide@) =~= slide_tags());
    assert(words_view(royal@) =~= royal_tags());
    assert(words_view(push@) =~= push_tags());
    assert(words_view(take@) =~= take_tags());
    assert(white_push@ =~= seq![(-1isize, 0isize)]);
    assert(white_take@ =~= seq![(-1isize, -1isize), (-1isize, 1isize)]);
    assert(black_push@ =~= seq![(1isize, 0isize)]);
    assert(black_take@ =~= seq![(1isize, -1isize), (1isize, 1isize)]);
    let mut rules: Vec<WalkType<2>> = Vec::new();
    assert(rules_view(rules@) =~= Seq::<RuleView>::empty());
    add_rules(&mut rules, "white", "pawn", &white_push, 2, &push);
    add_rules(&mut rules, "white", "pawn", &white_take, 1, &take);
    add_rules(&mut rules, "black", "pawn", &black_push, 2, &push);
    add_rules(&mut rules, "black", "pawn", &black_take, 1, &take);
    add_rules(&mut rules, "white", "knight", &knight, 1, &slide);
    add_rules(&mut rules, "black", "knight", &knight, 1, &slide);
    add_rules(&mut rules, "white", "bishop", &diagonal, UNBOUNDED, &slide);
    add_rules(&mut rules, "black", "bishop", &diagonal, UNBOUNDED, &slide);
    add_rules(&mut rules, "white", "rook", &straight, UNBOUNDED, &slide);
    add_rules(&mut rules, "black", "rook", &straight, UNBOUNDED, &slide);
    add_rules(&mut rules, "white", "queen", &around, UNBOUNDED, &slide);
    add_rules(&mut rules, "black", "queen", &around, UNBOUNDED, &slide);
    add_rules(&mut rules, "white", "king", &around, 1, &royal);
    add_rules(&mut rules, "black", "king", &around, 1, &royal);
    assert(rules_view(rules@).len() == rules@.len());
    rules
}

/// The board, kinds and rules of the classic game.
pub fn default_setting() -> (r: (Board<2>, Vec<String>, Vec<WalkType<2>>))
    ensures
        r.0.wf(),
        r.0@.size == seq![8usize, 8usize],
        r.0@.cells.len() == 32,
        forall|row: usize, col: usize|
            row < 8 && col < 8 ==> #[trigger] occupant(r.0@, square(row, col)) == opening_occupant(row as int, col as int),
        r.1.deep_view() == seq!["pawn"@, "knight"@, "bishop"@, "rook"@, "queen"@, "king"@],
        rules_view(r.2@) == classic_rules(),
        r.2@.len() == 70,
{
    (default_board(), default_piece_type(), default_piece_move())
}

impl Default for MainCalculate<2> {
    /// A controller over the classic game's opening position.
    fn default() -> (r: Self)
        ensures
            r.board.wf(),
            r.board@.size == seq![8usize, 8usize],
            r.board@.cells.len() == 32,
            forall|row: usize, col: usize|
                row < 8 && col < 8 ==> #[trigger] occupant(r.board@, square(row, col)) == opening_occupant(
                    row as int,
                    col as int,
                ),
            r.piece_type.deep_view() == seq!["pawn"@, "knight"@, "bishop"@, "rook"@, "queen"@, "king"@],
            rules_view(r.piece_direction@) == classic_rules(),
            r.piece_direction@.len() == 70,
            r.save_moves is Empty,
    {
        let (board, kinds, rules) = default_setting();
        MainCalculate::new(board, kinds, rules)
    }
}

} // verus!
