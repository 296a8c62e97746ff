use vstd::prelude::*;
use crate::board::{Board, BoardView};
use crate::generator::{moved_spec, search_spec, CalculateMoves};
use crate::moves::{distinct, distinct_moves, moves_view, rules_view, MoveType, RuleView};
use crate::parallel::par_map;

verus! {

/// The tree of positions reachable from a board: an expanded node holds the
/// board and, for each candidate move there, the subtree reached by playing
/// it; a leaf holds a board; `Empty` is a tree not yet computed.
#[derive(Debug)]
#[verifier::reject_recursive_types(D)]
pub enum CanMove<const D: usize> {
    CanMoves(Board<D>, Vec<Branch<D>>),
    Board(Board<D>),
    Empty,
}

/// One child of an expanded node: the move played and the tree it leads to.
#[derive(Debug)]
#[verifier::reject_recursive_types(D)]
pub struct Branch<const D: usize> {
    pub move_type: MoveType<D>,
    pub tree: CanMove<D>,
}

/// `t` is the tree of all positions reachable from `b` under `rules`, to
/// `depth` further plies: an expanded node for `b`, with one child per
/// distinct candidate move, in the order the moves are first generated, each
/// keyed by its move; below the last ply each child is a leaf holding the
/// board after its move.
pub open spec fn is_search_tree<const D: usize>(t: CanMove<D>, b: BoardView, rules: Seq<RuleView>, depth: nat) -> bool
    decreases depth,
{
    match t {
        CanMove::CanMoves(board, children) => {
            let moves = distinct(search_spec(b, rules));
            &&& board@ == b
            &&& children@.len() == moves.len()
            &&& forall|i: int|
                #![trigger children@[i]]
                0 <= i < moves.len() ==> {
                    &&& children@[i].move_type@ == moves[i]
                    &&& if depth == 0 {
                        match children@[i].tree {
                            CanMove::Board(leaf) => leaf@ == moved_spec(b, moves[i]),
                            _ => false,
                        }
                    } else {
                        is_search_tree(children@[i].tree, moved_spec(b, moves[i]), rules, (depth - 1) as nat)
                    }
                }
        },
        _ => false,
    }
}

impl<const D: usize> CanMove<D> {
    /// The board of a leaf.
    pub fn as_board(&self) -> (r: Option<&Board<D>>)
        ensures
            r matches Some(b) ==> *self == CanMove::Board(*b),
            r is None <==> !(self is Board),
    {
        match self {
            CanMove::Board(board) => Some(board),
            _ => None,
        }
    }

    /// The board and the children of an expanded node.
    pub fn as_can_moves(&self) -> (r: Option<(&Board<D>, &Vec<Branch<D>>)>)
        ensures
            r matches Some((b, c)) ==> *self == CanMove::CanMoves(*b, *c),
            r is None <==> !(self is CanMoves),
    {
        match self {
            CanMove::CanMoves(board, children) => Some((board, children)),
            _ => None,
        }
    }
}

impl<'a, const D: usize> CalculateMoves<'a, D> {
    /// The tree of every position reachable within `depth` further plies
    /// below the current one. Each level's moves are expanded in parallel.
    pub fn search_piece(&self, depth: usize) -> (r: CanMove<D>)
        requires
            self.board.wf(),
        ensures
            is_search_tree(r, self.board@, rules_view(self.piece_direction@), depth as nat),
        decreases depth,
    {
        let moves = distinct_moves(self.board_piece_search());
        let ghost b = self.board@;
        let ghost rules = rules_view(self.piece_direction@);
        let ghost mv = moves_view(moves@);
        let n = moves.len();
        let mut children: Vec<Branch<D>> = Vec::new();
        if depth == 0 {
            let mut i: usize = 0;
            while i < n
                invariant
                    self.board.wf(),
                    self.board@ == b,
                    n == moves@.len(),
                    mv == moves_view(moves@),
                    mv == distinct(search_spec(b, rules)),
                    i <= n,
                    children@.len() == i,
                    forall|j: int|
                        #![trigger children@[j]]
                        0 <= j < i ==> {
                            &&& children@[j].move_type@ == mv[j]
                            &&& match children@[j].tree {
                                CanMove::Board(leaf) => leaf@ == moved_spec(b, mv[j]),
                                _ => false,
                            }
                        },
                decreases n - i,
            {
                let after = self.piece_moved(moves[i].duplicate());
                children.push(Branch { move_type: moves[i].duplicate(), tree: CanMove::Board(after) });
                i = i + 1;
            }
        } else {
            let expand = |m: &MoveType<D>| -> (r: CanMove<D>)
                requires
                    self.board.wf(),
                ensures
                    is_search_tree(r, moved_spec(self.board@, m@), rules_view(self.piece_direction@), (depth - 1) as nat),
            {
                let after = self.piece_moved(m.duplicate());
                let next = CalculateMoves::new(after, self.piece_type, self.piece_direction);
                next.search_piece(depth - 1)
            };
            let mut subtrees = par_map(&moves, expand);
            let ghost all = subtrees@;
            let mut i: usize = 0;
            while i < n
                invariant
                    n == moves@.len(),
                    mv == moves_view(moves@),
                    mv == distinct(search_spec(b, rules)),
                    all.len() == n,
                    forall|j: int|
                        0 <= j < n ==> is_search_tree(all[j], moved_spec(b, mv[j]), rules, (depth - 1) as nat),
                    i <= n,
                    subtrees@ == all.subrange(i as int, n as int),
                    children@.len() == i,
                    forall|j: int|
                        #![trigger children@[j]]
                        0 <= j < i ==> {
                            &&& children@[j].move_type@ == mv[j]
                            &&& children@[j].tree == all[j]
                        },
                decreases n - i,
            {
                let sub = subtrees.remove(0);
                assert(subtrees@ =~= all.subrange(i + 1, n as int));
                children.push(Branch { move_type: moves[i].duplicate(), tree: sub });
                i = i + 1;
            }
        }
        CanMove::CanMoves(self.board.duplicate(), children)
    }
}

} // verus!
