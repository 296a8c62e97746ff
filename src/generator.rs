use vstd::prelude::*;
use crate::board::{
    cell_index, cells_wf, cleared_board, in_bounds, lemma_cell_index, occupant, same_position, Board,
    BoardView,
};
use crate::moves::{moves_view, none_move, rules_view, MoveType, MoveView, RuleView, WalkType};
use crate::piece::{copy_strings, has_tag, Cell, CellView, Piece, PieceView};
use crate::parallel::par_map;
use crate::position::{shifted, AbsolutePosition};

verus! {

/// How a single candidate destination is classified under a rule: a capture
/// when an opposing piece stands there and the rule captures, a move when it
/// is empty and the rule moves, and otherwise the move with every field absent.
pub open spec fn step_spec(b: BoardView, dest: Seq<usize>, r: RuleView) -> MoveView {
    if !in_bounds(b.size, dest) {
        none_move()
    } else {
        match occupant(b, dest) {
            Some(c) => if c.piece.color != r.color && r.attributes.contains("capture"@) {
                MoveView {
                    from: None,
                    to: Some(dest),
                    tag: Some("x"@),
                    piece: None,
                    captured: Some(c.piece),
                    attributes: Some(r.attributes),
                }
            } else {
                none_move()
            },
            None => if r.attributes.contains("move"@) {
                MoveView {
                    from: None,
                    to: Some(dest),
                    tag: Some("m"@),
                    piece: None,
                    captured: None,
                    attributes: Some(r.attributes),
                }
            } else {
                none_move()
            },
        }
    }
}

/// A classified step, stamped with where the walk started and which piece walks.
pub open spec fn stamped(m: MoveView, origin: Seq<usize>, piece: PieceView) -> MoveView {
    MoveView {
        from: Some(origin),
        to: m.to,
        tag: m.tag,
        piece: Some(piece),
        captured: m.captured,
        attributes: m.attributes,
    }
}

/// The rest of a walk from `cursor`, with `fuel` repeats left and `jumped`
/// telling whether the one-shot jump has been spent. The walk stops at the
/// board's edge, at a blocked cell (unless it may jump it), and after a capture.
pub open spec fn walk_from(
    b: BoardView,
    origin: Seq<usize>,
    cursor: Seq<usize>,
    r: RuleView,
    piece: PieceView,
    fuel: nat,
    jumped: bool,
) -> Seq<MoveView>
    decreases fuel,
{
    if fuel == 0 {
        seq![]
    } else {
        match shifted(cursor, r.delta) {
            None => seq![],
            Some(next) => if !in_bounds(b.size, next) {
                seq![]
            } else if next == origin {
                walk_from(b, origin, next, r, piece, (fuel - 1) as nat, jumped)
            } else {
                let m = step_spec(b, next, r);
                if m == none_move() {
                    if r.attributes.contains("jump"@) && !jumped {
                        walk_from(b, origin, next, r, piece, (fuel - 1) as nat, true)
                    } else {
                        seq![]
                    }
                } else if m.captured is Some {
                    seq![stamped(m, origin, piece)]
                } else {
                    seq![stamped(m, origin, piece)] + walk_from(
                        b,
                        origin,
                        next,
                        r,
                        piece,
                        (fuel - 1) as nat,
                        jumped,
                    )
                }
            },
        }
    }
}

/// The moves that one rule gives `piece` standing on `origin`.
pub open spec fn walk_spec(b: BoardView, origin: Seq<usize>, piece: PieceView, r: RuleView) -> Seq<MoveView> {
    walk_from(b, origin, origin, r, piece, r.repeat, false)
}

/// The rule is one of `piece`'s own: same color and kind.
pub open spec fn rule_applies(r: RuleView, piece: PieceView) -> bool {
    r.color == piece.color && r.kind == piece.kind
}

/// The moves that rule `r` gives `piece` on `origin`: none unless it applies.
pub open spec fn rule_moves(b: BoardView, origin: Seq<usize>, piece: PieceView, r: RuleView) -> Seq<MoveView> {
    if rule_applies(r, piece) {
        walk_spec(b, origin, piece, r)
    } else {
        seq![]
    }
}

/// The lists of `parts`, one after another.
pub open spec fn concat_all(parts: Seq<Seq<MoveView>>) -> Seq<MoveView>
    decreases parts.len(),
{
    if parts.len() == 0 {
        seq![]
    } else {
        parts[0] + concat_all(parts.drop_first())
    }
}

/// What a list of move lists is.
pub open spec fn parts_view<const D: usize>(parts: Seq<Vec<MoveType<D>>>) -> Seq<Seq<MoveView>> {
    Seq::new(parts.len(), |i: int| moves_view(parts[i]@))
}

/// The lists of `parts`, one after another.
pub fn concat_moves<const D: usize>(parts: Vec<Vec<MoveType<D>>>) -> (r: Vec<MoveType<D>>)
    ensures
        moves_view(r@) == concat_all(parts_view(parts@)),
{
    let ghost total = concat_all(parts_view(parts@));
    let mut parts = parts;
    let mut r: Vec<MoveType<D>> = Vec::new();
    assert(moves_view(r@) + total =~= total);
    while parts.len() > 0
        invariant
            moves_view(r@) + concat_all(parts_view(parts@)) == total,
        decreases parts@.len(),
    {
        let ghost pv = parts_view(parts@);
        let mut part = parts.remove(0);
        let ghost done = moves_view(r@);
        let ghost pm = moves_view(part@);
        r.append(&mut part);
        assert(parts_view(parts@) =~= pv.drop_first());
        assert(moves_view(r@) =~= done + pm);
        assert(done + (pm + concat_all(pv.drop_first())) =~= (done + pm) + concat_all(pv.drop_first()));
    }
    assert(moves_view(r@) + concat_all(parts_view(parts@)) =~= moves_view(r@));
    r
}

/// The moves of whatever stands on `p`, rule after rule in table order.
pub open spec fn piece_spec(b: BoardView, p: Seq<usize>, rules: Seq<RuleView>) -> Seq<MoveView> {
    match occupant(b, p) {
        None => seq![],
        Some(c) => concat_all(Seq::new(rules.len(), |i: int| rule_moves(b, p, c.piece, rules[i]))),
    }
}

/// Every pseudo-move on the board, cell after cell in the board's order, for
/// both colors.
pub open spec fn search_spec(b: BoardView, rules: Seq<RuleView>) -> Seq<MoveView> {
    concat_all(Seq::new(b.cells.len(), |i: int| piece_spec(b, b.cells[i].0, rules)))
}

/// The board after `m` is played: the "moving" tag is taken off every cell;
/// then, when the move has a source and a destination, the piece on the source
/// goes to the destination, tagged "moving", and the source becomes empty. A
/// move onto an occupied cell is dropped: the board comes back as it was.
pub open spec fn moved_spec(b: BoardView, m: MoveView) -> BoardView {
    if m.to matches Some(t) && occupant(b, t) is Some {
        b
    } else {
        let c = cleared_board(b);
        match (m.from, m.to) {
            (Some(f), Some(t)) => if in_bounds(b.size, t) && occupant(b, f) is Some {
                let i = cell_index(b.cells, f);
                BoardView {
                    size: b.size,
                    cells: c.cells.update(
                        i,
                        (t, CellView { piece: c.cells[i].1.piece, status: c.cells[i].1.status.push("moving"@) }),
                    ),
                }
            } else {
                c
            },
            _ => c,
        }
    }
}

/// Playing a move keeps a board well formed.
pub proof fn lemma_moved_wf(b: BoardView, m: MoveView)
    requires
        cells_wf(b.size, b.cells),
    ensures
        cells_wf(b.size, moved_spec(b, m).cells),
        moved_spec(b, m).size == b.size,
{
    let c = cleared_board(b);
    assert(cells_wf(b.size, c.cells));
    if let (Some(f), Some(t)) = (m.from, m.to) {
        if occupant(b, t) is None && in_bounds(b.size, t) && occupant(b, f) is Some {
            let i = cell_index(b.cells, f);
            let r = moved_spec(b, m);
            assert forall|j: int| 0 <= j < r.cells.len() && j != i implies #[trigger] r.cells[j].0 != t by {
                if r.cells[j].0 == t {
                    lemma_cell_index(b, j);
                }
            }
            assert forall|j: int, k: int|
                0 <= j < r.cells.len() && 0 <= k < r.cells.len() && j != k implies #[trigger] r.cells[j].0
                != #[trigger] r.cells[k].0 by {
                if j != i && k != i {
                    assert(b.cells[j].0 != b.cells[k].0);
                }
            }
        }
    }
}

/// With a zero delta a walk records nothing.
pub proof fn lemma_walk_zero_delta(
    b: BoardView,
    origin: Seq<usize>,
    r: RuleView,
    piece: PieceView,
    fuel: nat,
    jumped: bool,
)
    requires
        r.delta.len() == origin.len(),
        forall|i: int| 0 <= i < r.delta.len() ==> r.delta[i] == 0,
    ensures
        walk_from(b, origin, origin, r, piece, fuel, jumped) == Seq::<MoveView>::empty(),
    decreases fuel,
{
    if fuel > 0 {
        assert(forall|i: int| 0 <= i < origin.len() ==> 0 <= #[trigger] origin[i] + r.delta[i] <= usize::MAX);
        let next = Seq::new(origin.len(), |i: int| (origin[i] + r.delta[i]) as usize);
        assert(next =~= origin);
        lemma_walk_zero_delta(b, origin, r, piece, (fuel - 1) as nat, jumped);
    }
}

/// The move generator over one board and a shared rule table.
pub struct CalculateMoves<'a, const D: usize> {
    pub board: Board<D>,
    pub piece_type: &'a Vec<String>,
    pub piece_direction: &'a Vec<WalkType<D>>,
}

impl<'a, const D: usize> CalculateMoves<'a, D> {
    /// A generator over `board` with the kinds and rules given.
    pub fn new(board: Board<D>, piece_type: &'a Vec<String>, piece_direction: &'a Vec<WalkType<D>>) -> (r: Self)
        ensures
            r.board == board,
            r.piece_type == piece_type,
            r.piece_direction == piece_direction,
    {
        CalculateMoves { board, piece_type, piece_direction }
    }

    /// Classifies one candidate destination under `rule`.
    pub fn step(&self, dest: &AbsolutePosition<D>, rule: &WalkType<D>) -> (r: MoveType<D>)
        requires
            self.board.wf(),
        ensures
            r@ == step_spec(self.board@, dest@, rule@),
    {
        if !self.board.in_bounds(dest) {
            return MoveType::none();
        }
        match self.board.get(dest) {
            Some(cell) => {
                if !(cell.piece.color == rule.color) && has_tag(&rule.attributes, &String::from_str("capture")) {
                    let r = MoveType {
                        from: None,
                        to: Some(*dest),
                        move_tag: Some(String::from_str("x")),
                        piece: None,
                        captured: Some(cell.piece.duplicate()),
                        attributes: Some(copy_strings(&rule.attributes)),
                    };
                    r
                } else {
                    MoveType::none()
                }
            },
            None => {
                if has_tag(&rule.attributes, &String::from_str("move")) {
                    MoveType {
                        from: None,
                        to: Some(*dest),
                        move_tag: Some(String::from_str("m")),
                        piece: None,
                        captured: None,
                        attributes: Some(copy_strings(&rule.attributes)),
                    }
                } else {
                    MoveType::none()
                }
            },
        }
    }

    /// Every move that `rule` gives `piece` standing on `origin`.
    pub fn walk(&self, origin: &AbsolutePosition<D>, piece: &Piece, rule: &WalkType<D>) -> (r: Vec<MoveType<D>>)
        requires
            self.board.wf(),
        ensures
            moves_view(r@) == walk_spec(self.board@, origin@, piece@, rule@),
    {
        let ghost b = self.board@;
        let mut moves: Vec<MoveType<D>> = Vec::new();
        let mut zero = true;
        let mut d: usize = 0;
        while d < D
            invariant
                d <= D,
                rule.delta@.len() == D,
                zero == forall|j: int| 0 <= j < d ==> rule.delta@[j] == 0,
            decreases D - d,
        {
            if rule.delta.offset[d] != 0 {
                zero = false;
            }
            d = d + 1;
        }
        if zero {
            proof {
                lemma_walk_zero_delta(b, origin@, rule@, piece@, rule@.repeat, false);
            }
            assert(moves_view(moves@) =~= Seq::<MoveView>::empty());
            return moves;
        }
        let may_jump = has_tag(&rule.attributes, &String::from_str("jump"));
        let mut cursor: AbsolutePosition<D> = *origin;
        let mut jumped = false;
        let mut k: usize = 0;
        loop
            invariant_except_break
                moves_view(moves@) + walk_from(b, origin@, cursor@, rule@, piece@, (rule.repeat - k) as nat, jumped)
                    == walk_spec(b, origin@, piece@, rule@),
            invariant
                self.board.wf(),
                self.board@ == b,
                k <= rule.repeat,
                may_jump == rule@.attributes.contains("jump"@),
            ensures
                moves_view(moves@) == walk_spec(b, origin@, piece@, rule@),
            decreases rule.repeat - k,
        {
            let ghost before = moves_view(moves@);
            assert(before + Seq::<MoveView>::empty() =~= before);
            if k >= rule.repeat {
                break;
            }
            k = k + 1;
            let next = match cursor.add_absolute(&rule.delta) {
                Some(p) => p,
                None => {
                    break;
                },
            };
            if !self.board.in_bounds(&next) {
                break;
            }
            cursor = next;
            if same_position(&next, origin) {
                continue;
            }
            let mut m = self.step(&next, rule);
            if m.all_none() {
                if may_jump && !jumped {
                    jumped = true;
                    continue;
                }
                break;
            }
            let capture = m.captured.is_some();
            m.from = Some(*origin);
            m.piece = Some(piece.duplicate());
            moves.push(m);
            assert(moves_view(moves@) =~= before + seq![m@]);
            if capture {
                break;
            }
            assert(moves_view(moves@) + walk_from(b, origin@, cursor@, rule@, piece@, (rule.repeat - k) as nat, jumped)
                =~= before + (seq![m@] + walk_from(b, origin@, cursor@, rule@, piece@, (rule.repeat - k) as nat, jumped)));
        }
        moves
    }

    /// The moves that `rule` gives `piece` on `origin`: none unless the rule
    /// is one of the piece's own.
    pub fn rule_walk(&self, origin: &AbsolutePosition<D>, piece: &Piece, rule: &WalkType<D>) -> (r: Vec<MoveType<D>>)
        requires
            self.board.wf(),
        ensures
            moves_view(r@) == rule_moves(self.board@, origin@, piece@, rule@),
    {
        if rule.color == piece.color && rule.kind == piece.kind {
            self.walk(origin, piece, rule)
        } else {
            let r: Vec<MoveType<D>> = Vec::new();
            assert(moves_view(r@) =~= Seq::<MoveView>::empty());
            r
        }
    }

    /// The moves of whatever stands on `p`: every rule of the table whose
    /// color and kind are the occupant's, walked from `p`, in table order.
    pub fn piece(&self, p: &AbsolutePosition<D>) -> (r: Vec<MoveType<D>>)
        requires
            self.board.wf(),
        ensures
            moves_view(r@) == piece_spec(self.board@, p@, rules_view(self.piece_direction@)),
    {
        let piece = match self.board.get(p) {
            Some(cell) => &cell.piece,
            None => {
                let r: Vec<MoveType<D>> = Vec::new();
                assert(moves_view(r@) =~= Seq::<MoveView>::empty());
                return r;
            },
        };
        let rules = self.piece_direction;
        let walk_one = |rule: &WalkType<D>| -> (r: Vec<MoveType<D>>)
            requires
                self.board.wf(),
            ensures
                moves_view(r@) == rule_moves(self.board@, p@, piece@, rule@),
        {
            self.rule_walk(p, piece, rule)
        };
        let parts = par_map(rules, walk_one);
        let ghost rv = rules_view(rules@);
        assert(parts_view(parts@) =~= Seq::new(rv.len(), |i: int| rule_moves(self.board@, p@, piece@, rv[i])));
        concat_moves(parts)
    }

    /// Every pseudo-move on the board: the moves of each occupied cell, in the
    /// board's order, whatever the color.
    pub fn board_piece_search(&self) -> (r: Vec<MoveType<D>>)
        requires
            self.board.wf(),
        ensures
            moves_view(r@) == search_spec(self.board@, rules_view(self.piece_direction@)),
    {
        let positions = self.board.occupied();
        let moves_of = |p: &AbsolutePosition<D>| -> (r: Vec<MoveType<D>>)
            requires
                self.board.wf(),
            ensures
                moves_view(r@) == piece_spec(self.board@, p@, rules_view(self.piece_direction@)),
        {
            self.piece(p)
        };
        let parts = par_map(&positions, moves_of);
        let ghost b = self.board@;
        assert(parts_view(parts@) =~= Seq::new(
            b.cells.len(),
            |i: int| piece_spec(b, b.cells[i].0, rules_view(self.piece_direction@)),
        ));
        concat_moves(parts)
    }

    /// The board after `move_type` is played (see `moved_spec`).
    pub fn piece_moved(&self, move_type: MoveType<D>) -> (r: Board<D>)
        requires
            self.board.wf(),
        ensures
            r@ == moved_spec(self.board@, move_type@),
            r.wf(),
    {
        proof {
            lemma_moved_wf(self.board@, move_type@);
        }
        if let Some(t) = &move_type.to {
            if self.board.find(t).is_some() {
                return self.board.duplicate();
            }
        }
        match (move_type.from, move_type.to) {
            (Some(f), Some(t)) => {
                let mut c = self.board.cleared();
                if !self.board.in_bounds(&t) {
                    return c;
                }
                match self.board.find(&f) {
                    None => c,
                    Some(i) => {
                        assert(c@.cells.len() == self.board@.cells.len());
                        assert(c.cells@.len() == c@.cells.len());
                        let mut status = copy_strings(&c.cells[i].1.status);
                        let ghost st0 = status.deep_view();
                        status.push(String::from_str("moving"));
                        assert(status.deep_view() =~= st0.push("moving"@));
                        let cell = Cell { piece: c.cells[i].1.piece.duplicate(), status };
                        let ghost before = c@;
                        c.cells[i] = (t, cell);
                        assert(c@.cells =~= before.cells.update(
                            i as int,
                            (t@, CellView {
                                piece: before.cells[i as int].1.piece,
                                status: before.cells[i as int].1.status.push("moving"@),
                            }),
                        ));
                        c
                    },
                }
            },
            _ => self.board.cleared(),
        }
    }
}

} // verus!
