use vstd::prelude::*;
use crate::board::{cell_index, cells_wf, in_bounds, lemma_cell_index, occupant, BoardView};
use crate::generator::{
    concat_all, lemma_moved_wf, moved_spec, piece_spec, rule_applies, rule_moves, search_spec, stamped, step_spec,
    walk_from, walk_spec,
};
use crate::moves::{distinct, none_move, MoveView, RuleView};
use crate::piece::{CellView, PieceView};
use crate::position::shifted;
use crate::tree::{is_search_tree, CanMove};

verus! {

/// `m` is a move that the board allows: it starts on an occupied cell and is
/// made by the piece there, it lands on another cell of the board, a move
/// without a capture lands on an empty cell, and a capture takes the piece
/// that stands on its destination.
pub open spec fn move_is_sound(b: BoardView, m: MoveView) -> bool {
    match (m.from, m.to) {
        (Some(f), Some(t)) => {
            &&& occupant(b, f) is Some
            &&& m.piece == Some(occupant(b, f)->Some_0.piece)
            &&& in_bounds(b.size, t)
            &&& f != t
            &&& m.captured is None ==> occupant(b, t) is None
            &&& m.captured matches Some(p) ==> (occupant(b, t) matches Some(c) && c.piece == p)
        },
        _ => false,
    }
}

/// Each move of a walk is sound, and only its last move can be a capture.
pub proof fn lemma_walk_from_sound(
    b: BoardView,
    origin: Seq<usize>,
    cursor: Seq<usize>,
    r: RuleView,
    c: CellView,
    fuel: nat,
    jumped: bool,
)
    requires
        occupant(b, origin) == Some(c),
    ensures
        forall|k: int|
            0 <= k < walk_from(b, origin, cursor, r, c.piece, fuel, jumped).len() ==> move_is_sound(
                b,
                #[trigger] walk_from(b, origin, cursor, r, c.piece, fuel, jumped)[k],
            ),
        forall|k: int|
            0 <= k < walk_from(b, origin, cursor, r, c.piece, fuel, jumped).len() - 1
                ==> (#[trigger] walk_from(b, origin, cursor, r, c.piece, fuel, jumped)[k]).captured is None,
    decreases fuel,
{
    if fuel > 0 {
        if let Some(next) = shifted(cursor, r.delta) {
            if in_bounds(b.size, next) {
                let f1 = (fuel - 1) as nat;
                if next == origin {
                    lemma_walk_from_sound(b, origin, next, r, c, f1, jumped);
                } else {
                    let m = step_spec(b, next, r);
                    if m == none_move() {
                        if r.attributes.contains("jump"@) && !jumped {
                            lemma_walk_from_sound(b, origin, next, r, c, f1, true);
                        }
                    } else {
                        let s = stamped(m, origin, c.piece);
                        assert(move_is_sound(b, s));
                        if m.captured is None {
                            lemma_walk_from_sound(b, origin, next, r, c, f1, jumped);
                            let rest = walk_from(b, origin, next, r, c.piece, f1, jumped);
                            let w = walk_from(b, origin, cursor, r, c.piece, fuel, jumped);
                            assert(w == seq![s] + rest);
                            assert forall|k: int| 0 <= k < w.len() implies move_is_sound(b, #[trigger] w[k]) by {
                                if k > 0 {
                                    assert(w[k] == rest[k - 1]);
                                }
                            }
                            assert forall|k: int| 0 <= k < w.len() - 1 implies (#[trigger] w[k]).captured is None by {
                                if k > 0 {
                                    assert(w[k] == rest[k - 1]);
                                }
                            }
                        }
                    }
                }
            }
        }
    }
}

/// What holds of every list of `parts` holds of their concatenation.
pub proof fn lemma_concat_all_forall(parts: Seq<Seq<MoveView>>, p: spec_fn(MoveView) -> bool)
    requires
        forall|i: int, j: int| 0 <= i < parts.len() && 0 <= j < parts[i].len() ==> p(#[trigger] parts[i][j]),
    ensures
        forall|k: int| 0 <= k < concat_all(parts).len() ==> p(#[trigger] concat_all(parts)[k]),
    decreases parts.len(),
{
    if parts.len() > 0 {
        let rest = parts.drop_first();
        assert forall|i: int, j: int| 0 <= i < rest.len() && 0 <= j < rest[i].len() implies p(#[trigger] rest[i][j]) by {
            assert(rest[i] == parts[i + 1]);
        }
        lemma_concat_all_forall(rest, p);
        let all = concat_all(parts);
        assert forall|k: int| 0 <= k < all.len() implies p(#[trigger] all[k]) by {
            if k < parts[0].len() {
                assert(all[k] == parts[0][k]);
            } else {
                assert(all[k] == concat_all(rest)[k - parts[0].len()]);
            }
        }
    }
}

/// Every pseudo-move that the board search finds is sound.
pub proof fn lemma_search_sound(b: BoardView, rules: Seq<RuleView>)
    requires
        cells_wf(b.size, b.cells),
    ensures
        forall|k: int|
            0 <= k < search_spec(b, rules).len() ==> move_is_sound(b, #[trigger] search_spec(b, rules)[k]),
{
    let pred = |m: MoveView| move_is_sound(b, m);
    let outer = Seq::new(b.cells.len(), |i: int| piece_spec(b, b.cells[i].0, rules));
    assert forall|i: int, j: int| 0 <= i < outer.len() && 0 <= j < outer[i].len() implies pred(
        #[trigger] outer[i][j],
    ) by {
        lemma_cell_index(b, i);
        let origin = b.cells[i].0;
        let c = b.cells[i].1;
        let inner = Seq::new(rules.len(), |x: int| rule_moves(b, origin, c.piece, rules[x]));
        assert forall|x: int, y: int| 0 <= x < inner.len() && 0 <= y < inner[x].len() implies pred(
            #[trigger] inner[x][y],
        ) by {
            if rule_applies(rules[x], c.piece) {
                lemma_walk_from_sound(b, origin, origin, rules[x], c, rules[x].repeat, false);
                assert(inner[x] == walk_from(b, origin, origin, rules[x], c.piece, rules[x].repeat, false));
            }
        }
        lemma_concat_all_forall(inner, pred);
        assert(outer[i] == concat_all(inner));
    }
    lemma_concat_all_forall(outer, pred);
}

/// The cell `k` steps of `d` away from `p`, if every step stays in range.
pub open spec fn ray(p: Seq<usize>, d: Seq<isize>, k: nat) -> Option<Seq<usize>>
    decreases k,
{
    if k == 0 {
        Some(p)
    } else {
        match ray(p, d, (k - 1) as nat) {
            Some(q) => shifted(q, d),
            None => None,
        }
    }
}

/// The cell `k` steps away lies `k` times the delta away on every axis.
pub proof fn lemma_ray_components(p: Seq<usize>, d: Seq<isize>, k: nat)
    requires
        p.len() == d.len(),
    ensures
        ray(p, d, k) matches Some(q) ==> q.len() == p.len() && forall|i: int|
            0 <= i < p.len() ==> #[trigger] q[i] == p[i] + k * d[i],
    decreases k,
{
    if k > 0 {
        lemma_ray_components(p, d, (k - 1) as nat);
        if let Some(q) = ray(p, d, k) {
            let q0 = ray(p, d, (k - 1) as nat)->Some_0;
            assert forall|i: int| 0 <= i < p.len() implies #[trigger] q[i] == p[i] + k * d[i] by {
                assert(q[i] == q0[i] + d[i]);
                assert(q0[i] == p[i] + (k - 1) * d[i]);
                assert(p[i] + (k - 1) * d[i] + d[i] == p[i] + k * d[i]) by (nonlinear_arith);
            }
        }
    } else {
        assert forall|i: int| 0 <= i < p.len() implies #[trigger] p[i] == p[i] + k * d[i] by {
            let di = d[i] as int;
            assert(k * di == 0) by (nonlinear_arith)
                requires
                    k == 0,
            ;
        }
    }
}

/// A nonzero delta never leads back to the start.
pub proof fn lemma_ray_moves_away(p: Seq<usize>, d: Seq<isize>, k: nat, axis: int)
    requires
        p.len() == d.len(),
        k >= 1,
        0 <= axis < d.len(),
        d[axis] != 0,
        ray(p, d, k) is Some,
    ensures
        ray(p, d, k)->Some_0 != p,
{
    lemma_ray_components(p, d, k);
    let q = ray(p, d, k)->Some_0;
    let dk = d[axis] as int;
    assert(k * dk != 0) by (nonlinear_arith)
        requires
            k >= 1,
            dk != 0,
    ;
    assert(q[axis] != p[axis]);
}

/// The walk is stopped at the cell `k` steps out: it is off the range or
/// the board, or the rule can neither move nor capture there.
pub open spec fn blocked_at(b: BoardView, origin: Seq<usize>, r: RuleView, k: nat) -> bool {
    match ray(origin, r.delta, k) {
        Some(t) => !in_bounds(b.size, t) || step_spec(b, t, r) == none_move(),
        None => true,
    }
}

/// The rest of a walk without a jump from `j` steps out: its moves land on
/// the cells `j + 1`, `j + 2`, ... steps out, and when it ends before its
/// repeats are spent and not on a capture, the next cell is blocked.
pub proof fn lemma_walk_from_along_ray(
    b: BoardView,
    origin: Seq<usize>,
    r: RuleView,
    piece: PieceView,
    j: nat,
    fuel: nat,
    jumped: bool,
    axis: int,
)
    requires
        !r.attributes.contains("jump"@),
        origin.len() == r.delta.len(),
        0 <= axis < r.delta.len(),
        r.delta[axis] != 0,
        ray(origin, r.delta, j) is Some,
    ensures
        ({
            let w = walk_from(b, origin, ray(origin, r.delta, j)->Some_0, r, piece, fuel, jumped);
            &&& forall|k: int| 0 <= k < w.len() ==> (#[trigger] w[k]).to == ray(origin, r.delta, (j + k + 1) as nat)
            &&& (w.len() < fuel && !(w.len() > 0 && w.last().captured is Some)) ==> blocked_at(
                b,
                origin,
                r,
                (j + w.len() + 1) as nat,
            )
        }),
    decreases fuel,
{
    let cursor = ray(origin, r.delta, j)->Some_0;
    let w = walk_from(b, origin, cursor, r, piece, fuel, jumped);
    if fuel > 0 {
        assert(ray(origin, r.delta, (j + 1) as nat) == shifted(cursor, r.delta));
        if let Some(next) = shifted(cursor, r.delta) {
            if in_bounds(b.size, next) {
                lemma_ray_moves_away(origin, r.delta, (j + 1) as nat, axis);
                let m = step_spec(b, next, r);
                if m != none_move() && m.captured is None {
                    let f1 = (fuel - 1) as nat;
                    lemma_walk_from_along_ray(b, origin, r, piece, j + 1, f1, jumped, axis);
                    let rest = walk_from(b, origin, next, r, piece, f1, jumped);
                    let s = stamped(m, origin, piece);
                    assert(w == seq![s] + rest);
                    assert forall|k: int| 0 <= k < w.len() implies (#[trigger] w[k]).to == ray(
                        origin,
                        r.delta,
                        (j + k + 1) as nat,
                    ) by {
                        if k > 0 {
                            assert(w[k] == rest[k - 1]);
                        }
                    }
                    if rest.len() > 0 {
                        assert(w.last() == rest.last());
                    }
                }
            }
        }
    }
}

/// A walk without a jump, along a nonzero delta: its `k`-th move lands on the
/// cell `k + 1` steps out; every move but the last lands on an empty cell and
/// captures nothing; and when it ends before its repeats are spent and not on
/// a capture, the next cell out is blocked (off the board, or occupied where
/// the rule cannot capture).
pub proof fn lemma_walk_stops_at_first_blocker(
    b: BoardView,
    origin: Seq<usize>,
    c: CellView,
    r: RuleView,
    axis: int,
)
    requires
        cells_wf(b.size, b.cells),
        occupant(b, origin) == Some(c),
        !r.attributes.contains("jump"@),
        origin.len() == r.delta.len(),
        0 <= axis < r.delta.len(),
        r.delta[axis] != 0,
    ensures
        ({
            let w = walk_spec(b, origin, c.piece, r);
            &&& forall|k: int| 0 <= k < w.len() ==> (#[trigger] w[k]).to == ray(origin, r.delta, (k + 1) as nat)
            &&& forall|k: int| 0 <= k < w.len() - 1 ==> (#[trigger] w[k]).captured is None && occupant(b, w[k].to->Some_0) is None
            &&& forall|k: int| 0 <= k < w.len() ==> move_is_sound(b, #[trigger] w[k])
            &&& (w.len() < r.repeat && !(w.len() > 0 && w.last().captured is Some)) ==> blocked_at(
                b,
                origin,
                r,
                (w.len() + 1) as nat,
            )
        }),
{
    assert(ray(origin, r.delta, 0) == Some(origin));
    lemma_walk_from_along_ray(b, origin, r, c.piece, 0, r.repeat, false, axis);
    lemma_walk_from_sound(b, origin, origin, r, c, r.repeat, false);
    let w = walk_spec(b, origin, c.piece, r);
    assert forall|k: int| 0 <= k < w.len() - 1 implies (#[trigger] w[k]).captured is None && occupant(
        b,
        w[k].to->Some_0,
    ) is None by {
        assert(move_is_sound(b, w[k]));
    }
}

/// On a board with no piece there is no move, and at any depth the tree is
/// one expanded node for that board, with no children.
pub proof fn lemma_empty_board<const D: usize>(b: BoardView, rules: Seq<RuleView>, t: CanMove<D>, depth: nat)
    requires
        b.cells.len() == 0,
    ensures
        search_spec(b, rules) == Seq::<MoveView>::empty(),
        is_search_tree(t, b, rules, depth) ==> (t matches CanMove::CanMoves(board, children) && board@ == b
            && children@.len() == 0),
{
    assert(Seq::new(b.cells.len(), |i: int| piece_spec(b, b.cells[i].0, rules)) =~= Seq::<Seq<MoveView>>::empty());
    assert(distinct(search_spec(b, rules)) == Seq::<MoveView>::empty());
}

/// A rule with a nonzero delta that may be used once gives at most one move:
/// the step to the cell its delta leads to, when that cell is on the board
/// and the step is a legal move or capture there; nothing otherwise.
pub proof fn lemma_single_step_rule(b: BoardView, origin: Seq<usize>, piece: PieceView, r: RuleView, axis: int)
    requires
        r.repeat == 1,
        origin.len() == r.delta.len(),
        0 <= axis < r.delta.len(),
        r.delta[axis] != 0,
    ensures
        walk_spec(b, origin, piece, r) == match shifted(origin, r.delta) {
            Some(t) => if in_bounds(b.size, t) && step_spec(b, t, r) != none_move() {
                seq![stamped(step_spec(b, t, r), origin, piece)]
            } else {
                Seq::<MoveView>::empty()
            },
            None => Seq::<MoveView>::empty(),
        },
{
    reveal_with_fuel(walk_from, 2);
    if let Some(t) = shifted(origin, r.delta) {
        assert(t[axis] != origin[axis]);
        if in_bounds(b.size, t) && step_spec(b, t, r) != none_move() {
            let s = stamped(step_spec(b, t, r), origin, piece);
            assert(seq![s] + Seq::<MoveView>::empty() =~= seq![s]);
        }
    }
}

/// Playing a sound move that captures nothing takes its piece off the source
/// and puts it on the destination.
pub proof fn lemma_moved_relocates(b: BoardView, m: MoveView)
    requires
        cells_wf(b.size, b.cells),
        move_is_sound(b, m),
        m.captured is None,
    ensures
        occupant(moved_spec(b, m), m.from->Some_0) is None,
        occupant(moved_spec(b, m), m.to->Some_0) is Some,
        occupant(moved_spec(b, m), m.to->Some_0)->Some_0.piece == occupant(b, m.from->Some_0)->Some_0.piece,
{
    let f = m.from->Some_0;
    let t = m.to->Some_0;
    let r = moved_spec(b, m);
    let i = cell_index(b.cells, f);
    lemma_cell_index(b, i);
    lemma_moved_wf(b, m);
    assert(r.cells[i].0 == t);
    lemma_cell_index(r, i);
    assert forall|k: int| 0 <= k < r.cells.len() implies #[trigger] r.cells[k].0 != f by {
        if k != i {
            assert(r.cells[k].0 == b.cells[k].0);
        }
    }
}

/// When the board has exactly one pseudo-move `m`, the tree to depth zero is
/// one expanded node for the board with one child, keyed by `m`, whose leaf is
/// the board after `m`; when `m` captures nothing, that board has the piece on
/// `m`'s destination and nothing on its source.
pub proof fn lemma_single_move_search<const D: usize>(b: BoardView, rules: Seq<RuleView>, t: CanMove<D>, m: MoveView)
    requires
        cells_wf(b.size, b.cells),
        search_spec(b, rules) == seq![m],
        is_search_tree(t, b, rules, 0),
    ensures
        t matches CanMove::CanMoves(board, children) && board@ == b && children@.len() == 1
            && children@[0].move_type@ == m && (children@[0].tree matches CanMove::Board(leaf) && leaf@
            == moved_spec(b, m)),
        m.captured is None ==> {
            &&& occupant(moved_spec(b, m), m.from->Some_0) is None
            &&& occupant(moved_spec(b, m), m.to->Some_0)->Some_0.piece == occupant(b, m.from->Some_0)->Some_0.piece
        },
{
    lemma_search_sound(b, rules);
    assert(search_spec(b, rules)[0] == m);
    reveal_with_fuel(distinct, 2);
    assert(seq![m].drop_last() =~= Seq::<MoveView>::empty());
    assert(distinct(seq![m]) =~= seq![m]);
    if m.captured is None {
        lemma_moved_relocates(b, m);
    }
    if let CanMove::CanMoves(board, children) = t {
        assert(children@[0].move_type@ == m);
    }
}

/// Two trees that both answer the same search are the same tree: the same
/// boards, the same moves in the same order, and the same subtrees.
pub open spec fn same_tree<const D: usize>(x: CanMove<D>, y: CanMove<D>, depth: nat) -> bool
    decreases depth,
{
    match (x, y) {
        (CanMove::CanMoves(bx, cx), CanMove::CanMoves(by, cy)) => {
            &&& bx@ == by@
            &&& cx@.len() == cy@.len()
            &&& forall|i: int|
                #![trigger cx@[i]]
                0 <= i < cx@.len() ==> {
                    &&& cx@[i].move_type@ == cy@[i].move_type@
                    &&& if depth == 0 {
                        match (cx@[i].tree, cy@[i].tree) {
                            (CanMove::Board(lx), CanMove::Board(ly)) => lx@ == ly@,
                            _ => false,
                        }
                    } else {
                        same_tree(cx@[i].tree, cy@[i].tree, (depth - 1) as nat)
                    }
                }
        },
        _ => false,
    }
}

/// A search has one answer: any two trees computed from the same board and
/// rules to the same depth are the same tree.
pub proof fn lemma_search_deterministic<const D: usize>(
    x: CanMove<D>,
    y: CanMove<D>,
    b: BoardView,
    rules: Seq<RuleView>,
    depth: nat,
)
    requires
        is_search_tree(x, b, rules, depth),
        is_search_tree(y, b, rules, depth),
    ensures
        same_tree(x, y, depth),
    decreases depth,
{
    if let (CanMove::CanMoves(bx, cx), CanMove::CanMoves(by, cy)) = (x, y) {
        let moves = distinct(search_spec(b, rules));
        assert forall|i: int| 0 <= i < cx@.len() implies {
            &&& #[trigger] cx@[i].move_type@ == cy@[i].move_type@
            &&& if depth == 0 {
                match (cx@[i].tree, cy@[i].tree) {
                    (CanMove::Board(lx), CanMove::Board(ly)) => lx@ == ly@,
                    _ => false,
                }
            } else {
                same_tree(cx@[i].tree, cy@[i].tree, (depth - 1) as nat)
            }
        } by {
            assert(cy@[i].move_type@ == moves[i]);
            if depth > 0 {
                lemma_search_deterministic(
                    cx@[i].tree,
                    cy@[i].tree,
                    moved_spec(b, moves[i]),
                    rules,
                    (depth - 1) as nat,
                );
            }
        }
    }
}

/// A move onto an occupied cell is dropped: the board after it is the board
/// before it.
pub proof fn lemma_occupied_destination_dropped(b: BoardView, m: MoveView)
    requires
        m.to matches Some(t) && occupant(b, t) is Some,
    ensures
        moved_spec(b, m) == b,
{
}

} // verus!
