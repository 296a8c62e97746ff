use vstd::prelude::*;
use crate::piece::{Cell, CellView, Piece};
use crate::position::AbsolutePosition;

verus! {

/// The occupied cells of a board, in order: position and content.
pub type CellsView = Seq<(Seq<usize>, CellView)>;

/// What a board is: its size per axis and its occupied cells.
pub struct BoardView {
    pub size: Seq<usize>,
    pub cells: CellsView,
}

/// `p` lies on a board of the given size.
pub open spec fn in_bounds(size: Seq<usize>, p: Seq<usize>) -> bool {
    p.len() == size.len() && forall|i: int| 0 <= i < p.len() ==> #[trigger] p[i] < size[i]
}

/// The index of the entry for `p` among `cells`, or -1 when `p` is empty.
pub open spec fn cell_index(cells: CellsView, p: Seq<usize>) -> int {
    if exists|i: int| 0 <= i < cells.len() && #[trigger] cells[i].0 == p {
        choose|i: int| 0 <= i < cells.len() && #[trigger] cells[i].0 == p
    } else {
        -1
    }
}

/// What stands on `p`.
pub open spec fn occupant(b: BoardView, p: Seq<usize>) -> Option<CellView> {
    let i = cell_index(b.cells, p);
    if i >= 0 {
        Some(b.cells[i].1)
    } else {
        None
    }
}

/// Every occupied cell lies on the board, and no position appears twice.
pub open spec fn cells_wf(size: Seq<usize>, cells: CellsView) -> bool {
    &&& forall|i: int| 0 <= i < cells.len() ==> in_bounds(size, #[trigger] cells[i].0)
    &&& forall|i: int, j: int|
        0 <= i < cells.len() && 0 <= j < cells.len() && i != j ==> #[trigger] cells[i].0
            != #[trigger] cells[j].0
}

/// An entry of a well-formed board is the one that `cell_index` finds.
pub proof fn lemma_cell_index(b: BoardView, i: int)
    requires
        cells_wf(b.size, b.cells),
        0 <= i < b.cells.len(),
    ensures
        cell_index(b.cells, b.cells[i].0) == i,
        occupant(b, b.cells[i].0) == Some(b.cells[i].1),
{
    let p = b.cells[i].0;
    assert(exists|k: int| 0 <= k < b.cells.len() && #[trigger] b.cells[k].0 == p);
}

/// After an entry for `p` is added to a well-formed board, `p` holds it and
/// every other position holds what it held before.
pub proof fn lemma_occupant_push(b: BoardView, p: Seq<usize>, c: CellView, q: Seq<usize>)
    requires
        cells_wf(b.size, b.cells),
        cells_wf(b.size, b.cells.push((p, c))),
    ensures
        occupant(BoardView { size: b.size, cells: b.cells.push((p, c)) }, q) == if q == p {
            Some(c)
        } else {
            occupant(b, q)
        },
{
    let nb = BoardView { size: b.size, cells: b.cells.push((p, c)) };
    if q == p {
        lemma_cell_index(nb, b.cells.len() as int);
    } else if exists|i: int| 0 <= i < b.cells.len() && #[trigger] b.cells[i].0 == q {
        let i = choose|i: int| 0 <= i < b.cells.len() && #[trigger] b.cells[i].0 == q;
        lemma_cell_index(b, i);
        assert(nb.cells[i] == b.cells[i]);
        lemma_cell_index(nb, i);
    } else {
        assert forall|i: int| 0 <= i < nb.cells.len() implies #[trigger] nb.cells[i].0 != q by {
            if i < b.cells.len() {
                assert(nb.cells[i] == b.cells[i]);
            }
        }
    }
}

/// `tags` without any entry equal to `t`, the rest kept in order.
pub open spec fn without_tag(tags: Seq<Seq<char>>, t: Seq<char>) -> Seq<Seq<char>>
    decreases tags.len(),
{
    if tags.len() == 0 {
        seq![]
    } else {
        let rest = without_tag(tags.drop_last(), t);
        if tags.last() == t {
            rest
        } else {
            rest.push(tags.last())
        }
    }
}

/// The board with the transient "moving" tag taken off every cell.
pub open spec fn cleared_board(b: BoardView) -> BoardView {
    BoardView {
        size: b.size,
        cells: Seq::new(
            b.cells.len(),
            |i: int|
                (
                    b.cells[i].0,
                    CellView { piece: b.cells[i].1.piece, status: without_tag(b.cells[i].1.status, "moving"@) },
                ),
        ),
    }
}

/// A copy of `tags` without any entry equal to `t`.
pub fn strings_without(tags: &Vec<String>, t: &String) -> (r: Vec<String>)
    ensures
        r.deep_view() == without_tag(tags.deep_view(), t@),
{
    let mut r: Vec<String> = Vec::new();
    let mut i: usize = 0;
    assert(r.deep_view() =~= without_tag(tags.deep_view().subrange(0, 0), t@));
    while i < tags.len()
        invariant
            i <= tags@.len(),
            r.deep_view() == without_tag(tags.deep_view().subrange(0, i as int), t@),
        decreases tags@.len() - i,
    {
        let ghost before = r.deep_view();
        assert(tags.deep_view().subrange(0, i + 1).drop_last() =~= tags.deep_view().subrange(0, i as int));
        if !(tags[i] == *t) {
            r.push(tags[i].clone());
            assert(r.deep_view() =~= before.push(tags.deep_view()[i as int]));
        }
        i = i + 1;
    }
    assert(tags.deep_view().subrange(0, tags@.len() as int) =~= tags.deep_view());
    r
}

/// A board: a size per axis and a sparse map from position to cell content.
/// A position without an entry is empty.
#[derive(Debug, Clone, PartialEq, Eq, Hash)]
pub struct Board<const D: usize> {
    pub size: [usize; D],
    pub cells: Vec<(AbsolutePosition<D>, Cell)>,
}

impl<const D: usize> View for Board<D> {
    type V = BoardView;

    open spec fn view(&self) -> BoardView {
        BoardView {
            size: self.size@,
            cells: Seq::new(self.cells@.len(), |i: int| (self.cells@[i].0@, self.cells@[i].1@)),
        }
    }
}

/// Whether two positions are the same cell.
pub fn same_position<const D: usize>(a: &AbsolutePosition<D>, b: &AbsolutePosition<D>) -> (r: bool)
    ensures
        r == (a@ == b@),
{
    let mut i: usize = 0;
    while i < D
        invariant
            i <= D,
            a@.len() == D,
            b@.len() == D,
            forall|j: int| 0 <= j < i ==> a@[j] == b@[j],
        decreases D - i,
    {
        if a.position[i] != b.position[i] {
            return false;
        }
        i = i + 1;
    }
    assert(a@ =~= b@);
    true
}

impl<const D: usize> Board<D> {
    /// The board's invariant.
    pub open spec fn wf(&self) -> bool {
        cells_wf(self@.size, self@.cells)
    }

    /// An empty board of the given size.
    pub fn new(size: [usize; D]) -> (r: Board<D>)
        ensures
            r.wf(),
            r@.size == size@,
            r@.cells.len() == 0,
    {
        Board { size, cells: Vec::new() }
    }

    /// Whether `p` lies on this board.
    pub fn in_bounds(&self, p: &AbsolutePosition<D>) -> (r: bool)
        ensures
            r == in_bounds(self@.size, p@),
    {
        let mut i: usize = 0;
        while i < D
            invariant
                i <= D,
                p@.len() == D,
                self@.size.len() == D,
                forall|j: int| 0 <= j < i ==> p@[j] < self@.size[j],
            decreases D - i,
        {
            if p.position[i] >= self.size[i] {
                return false;
            }
            i = i + 1;
        }
        true
    }

    /// The index of the entry for `p`, if `p` is occupied.
    pub fn find(&self, p: &AbsolutePosition<D>) -> (r: Option<usize>)
        requires
            self.wf(),
        ensures
            r matches Some(i) ==> i < self@.cells.len() && self@.cells[i as int].0 == p@
                && cell_index(self@.cells, p@) == i,
            r is None <==> cell_index(self@.cells, p@) == -1,
            r is None <==> occupant(self@, p@) is None,
    {
        let mut i: usize = 0;
        while i < self.cells.len()
            invariant
                i <= self.cells@.len(),
                self.wf(),
                forall|j: int| 0 <= j < i ==> self@.cells[j].0 != p@,
            decreases self.cells@.len() - i,
        {
            if same_position(&self.cells[i].0, p) {
                proof {
                    lemma_cell_index(self@, i as int);
                }
                return Some(i);
            }
            i = i + 1;
        }
        None
    }

    /// The content of `p`.
    pub fn get(&self, p: &AbsolutePosition<D>) -> (r: Option<&Cell>)
        requires
            self.wf(),
        ensures
            r matches Some(c) ==> occupant(self@, p@) == Some(c@),
            r is None <==> occupant(self@, p@) is None,
    {
        match self.find(p) {
            Some(i) => Some(&self.cells[i].1),
            None => None,
        }
    }

    /// The occupied positions, in the board's order.
    pub fn occupied(&self) -> (r: Vec<AbsolutePosition<D>>)
        ensures
            r@.len() == self@.cells.len(),
            forall|i: int| 0 <= i < r@.len() ==> r@[i]@ == self@.cells[i].0,
    {
        let mut r: Vec<AbsolutePosition<D>> = Vec::new();
        let mut i: usize = 0;
        while i < self.cells.len()
            invariant
                i <= self.cells@.len(),
                r@.len() == i,
                forall|j: int| 0 <= j < i ==> r@[j]@ == self@.cells[j].0,
            decreases self.cells@.len() - i,
        {
            r.push(self.cells[i].0);
            i = i + 1;
        }
        r
    }

    /// Puts `piece` on the empty cell `p`, with no status tags. Returns false,
    /// and leaves the board as it was, when `p` is off the board or occupied.
    pub fn place(&mut self, p: AbsolutePosition<D>, piece: Piece) -> (r: bool)
        requires
            old(self).wf(),
        ensures
            final(self).wf(),
            r == (in_bounds(old(self)@.size, p@) && occupant(old(self)@, p@) is None),
            r ==> final(self)@ == (BoardView {
                size: old(self)@.size,
                cells: old(self)@.cells.push((p@, CellView { piece: piece@, status: seq![] })),
            }),
            !r ==> final(self)@ == old(self)@,
    {
        if !self.in_bounds(&p) {
            return false;
        }
        if self.find(&p).is_some() {
            return false;
        }
        let ghost before = self@;
        let cell = Cell { piece, status: Vec::new() };
        proof {
            assert(cell.status.deep_view() =~= Seq::<Seq<char>>::empty());
        }
        self.cells.push((p, cell));
        assert(self@.cells =~= before.cells.push((p@, CellView { piece: piece@, status: seq![] })));
        assert forall|i: int, j: int|
            0 <= i < self@.cells.len() && 0 <= j < self@.cells.len() && i != j implies
            #[trigger] self@.cells[i].0 != #[trigger] self@.cells[j].0 by {
            if i == before.cells.len() as int {
                assert(before.cells[j].0 != p@);
            } else if j == before.cells.len() as int {
                assert(before.cells[i].0 != p@);
            }
        }
        true
    }

    /// A copy of this board.
    pub fn duplicate(&self) -> (r: Board<D>)
        ensures
            r@ == self@,
    {
        let mut cells: Vec<(AbsolutePosition<D>, Cell)> = Vec::new();
        let mut i: usize = 0;
        while i < self.cells.len()
            invariant
                i <= self.cells@.len(),
                cells@.len() == i,
                forall|j: int|
                    0 <= j < i ==> cells@[j].0@ == self@.cells[j].0 && cells@[j].1@ == self@.cells[j].1,
            decreases self.cells@.len() - i,
        {
            cells.push((self.cells[i].0, self.cells[i].1.duplicate()));
            i = i + 1;
        }
        let r = Board { size: self.size, cells };
        assert(r@.cells =~= self@.cells);
        r
    }

    /// A copy of this board with the "moving" tag taken off every cell.
    pub fn cleared(&self) -> (r: Board<D>)
        ensures
            r@ == cleared_board(self@),
    {
        let moving = String::from_str("moving");
        let mut cells: Vec<(AbsolutePosition<D>, Cell)> = Vec::new();
        let mut i: usize = 0;
        while i < self.cells.len()
            invariant
                i <= self.cells@.len(),
                moving@ == "moving"@,
                cells@.len() == i,
                forall|j: int|
                    0 <= j < i ==> (cells@[j].0@, cells@[j].1@) == cleared_board(self@).cells[j],
            decreases self.cells@.len() - i,
        {
            let cell = Cell {
                piece: self.cells[i].1.piece.duplicate(),
                status: strings_without(&self.cells[i].1.status, &moving),
            };
            cells.push((self.cells[i].0, cell));
            i = i + 1;
        }
        let r = Board { size: self.size, cells };
        assert(r@.cells =~= cleared_board(self@).cells);
        r
    }
}

} // verus!
