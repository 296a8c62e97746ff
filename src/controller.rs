use vstd::prelude::*;
use crate::board::{cell_index, cells_wf, in_bounds, lemma_cell_index, same_position, Board, BoardView};
use crate::generator::{moved_spec, CalculateMoves};
use crate::moves::{rules_view, MoveType, MoveView, WalkType};
use crate::tree::{is_search_tree, CanMove};

verus! {

/// The board after `m` is applied to the game itself: the occupant of the
/// source (or nothing, when the source is empty) takes the destination's place,
/// and the source becomes empty. A move without both ends, with an end off the
/// board, or whose ends coincide changes nothing.
pub open spec fn applied_spec(b: BoardView, m: MoveView) -> BoardView {
    match (m.from, m.to) {
        (Some(f), Some(t)) => if f != t && in_bounds(b.size, f) && in_bounds(b.size, t) {
            let i = cell_index(b.cells, f);
            let j = cell_index(b.cells, t);
            let rekeyed = if i >= 0 {
                b.cells.update(i, (t, b.cells[i].1))
            } else {
                b.cells
            };
            BoardView {
                size: b.size,
                cells: if j >= 0 {
                    rekeyed.remove(j)
                } else {
                    rekeyed
                },
            }
        } else {
            b
        },
        _ => b,
    }
}

/// Applying a move to the game keeps its board well formed.
pub proof fn lemma_applied_wf(b: BoardView, m: MoveView)
    requires
        cells_wf(b.size, b.cells),
    ensures
        cells_wf(b.size, applied_spec(b, m).cells),
        applied_spec(b, m).size == b.size,
{
    if let (Some(f), Some(t)) = (m.from, m.to) {
        if f != t && in_bounds(b.size, f) && in_bounds(b.size, t) {
            let i = cell_index(b.cells, f);
            let j = cell_index(b.cells, t);
            if i >= 0 {
                lemma_cell_index(b, i);
            }
            if j >= 0 {
                lemma_cell_index(b, j);
            }
            let rekeyed = if i >= 0 {
                b.cells.update(i, (t, b.cells[i].1))
            } else {
                b.cells
            };
            assert forall|x: int| 0 <= x < rekeyed.len() implies in_bounds(b.size, #[trigger] rekeyed[x].0) by {
                if x != i {
                    assert(in_bounds(b.size, b.cells[x].0));
                }
            }
            assert forall|x: int, y: int|
                0 <= x < rekeyed.len() && 0 <= y < rekeyed.len() && x != y && x != j && y != j implies #[trigger] rekeyed[x].0
                != #[trigger] rekeyed[y].0 by {
                if x == i {
                    assert(b.cells[y].0 != t);
                } else if y == i {
                    assert(b.cells[x].0 != t);
                } else {
                    assert(b.cells[x].0 != b.cells[y].0);
                }
            }
            if j >= 0 {
                let r = rekeyed.remove(j);
                assert forall|x: int, y: int|
                    0 <= x < r.len() && 0 <= y < r.len() && x != y implies #[trigger] r[x].0 != #[trigger] r[y].0 by {
                    let x0 = if x < j { x } else { x + 1 };
                    let y0 = if y < j { y } else { y + 1 };
                    assert(r[x] == rekeyed[x0]);
                    assert(r[y] == rekeyed[y0]);
                }
                assert forall|x: int| 0 <= x < r.len() implies in_bounds(b.size, #[trigger] r[x].0) by {
                    let x0 = if x < j { x } else { x + 1 };
                    assert(r[x] == rekeyed[x0]);
                }
            } else {
                assert forall|x: int, y: int|
                    0 <= x < rekeyed.len() && 0 <= y < rekeyed.len() && x != y implies #[trigger] rekeyed[x].0
                    != #[trigger] rekeyed[y].0 by {
                    if x == i {
                        assert(b.cells[y].0 != t);
                    } else if y == i {
                        assert(b.cells[x].0 != t);
                    } else {
                        assert(b.cells[x].0 != b.cells[y].0);
                    }
                }
            }
        }
    }
}

/// The game's controller: the current board, the piece kinds and the rule
/// table, and the last tree computed from them.
#[derive(Debug)]
#[verifier::reject_recursive_types(D)]
pub struct MainCalculate<const D: usize> {
    pub board: Board<D>,
    pub piece_type: Vec<String>,
    pub piece_direction: Vec<WalkType<D>>,
    pub save_moves: CanMove<D>,
}

impl<const D: usize> MainCalculate<D> {
    /// A controller over `board`, with no tree computed yet.
    pub fn new(board: Board<D>, piece_type: Vec<String>, piece_direction: Vec<WalkType<D>>) -> (r: Self)
        ensures
            r.board == board,
            r.piece_type == piece_type,
            r.piece_direction == piece_direction,
            r.save_moves is Empty,
    {
        MainCalculate { board, piece_type, piece_direction, save_moves: CanMove::Empty }
    }

    /// Plays `move_type` on the game's own board (see `applied_spec`).
    pub fn piece_move(&mut self, move_type: MoveType<D>)
        requires
            old(self).board.wf(),
        ensures
            final(self).board@ == applied_spec(old(self).board@, move_type@),
            final(self).board.wf(),
            final(self).piece_type == old(self).piece_type,
            final(self).piece_direction == old(self).piece_direction,
            final(self).save_moves == old(self).save_moves,
    {
        proof {
            lemma_applied_wf(self.board@, move_type@);
        }
        let (f, t) = match (move_type.from, move_type.to) {
            (Some(f), Some(t)) => (f, t),
            _ => return,
        };
        if same_position(&f, &t) || !self.board.in_bounds(&f) || !self.board.in_bounds(&t) {
            return;
        }
        let ghost b = self.board@;
        let src = self.board.find(&f);
        let dst = self.board.find(&t);
        if let Some(i) = src {
            let content = self.board.cells[i].1.duplicate();
            self.board.cells[i] = (t, content);
        }
        let ghost rekeyed = self.board@.cells;
        assert(rekeyed =~= if cell_index(b.cells, f@) >= 0 {
            b.cells.update(cell_index(b.cells, f@), (t@, b.cells[cell_index(b.cells, f@)].1))
        } else {
            b.cells
        });
        if let Some(j) = dst {
            self.board.cells.remove(j);
            assert(self.board@.cells =~= rekeyed.remove(j as int));
        }
    }

    /// The board after `move_type` is played in the search (see `moved_spec`).
    pub fn piece_moved(&self, move_type: MoveType<D>) -> (r: Board<D>)
        requires
            self.board.wf(),
        ensures
            r@ == moved_spec(self.board@, move_type@),
            r.wf(),
    {
        CalculateMoves::new(self.board.duplicate(), &self.piece_type, &self.piece_direction).piece_moved(move_type)
    }

    /// Computes the tree to `depth` further plies and keeps it in `save_moves`.
    pub fn calculate_moves(&mut self, depth: usize)
        requires
            old(self).board.wf(),
        ensures
            is_search_tree(final(self).save_moves, old(self).board@, rules_view(old(self).piece_direction@), depth as nat),
            final(self).board == old(self).board,
            final(self).piece_type == old(self).piece_type,
            final(self).piece_direction == old(self).piece_direction,
    {
        let tree = self.calculate_moved(depth);
        self.save_moves = tree;
    }

    /// The tree to `depth` further plies, leaving the controller as it is.
    pub fn calculate_moved(&self, depth: usize) -> (r: CanMove<D>)
        requires
            self.board.wf(),
        ensures
            is_search_tree(r, self.board@, rules_view(self.piece_direction@), depth as nat),
    {
        CalculateMoves::new(self.board.duplicate(), &self.piece_type, &self.piece_direction).search_piece(depth)
    }
}

} // verus!
