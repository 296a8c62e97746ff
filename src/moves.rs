use vstd::prelude::*;
use crate::board::same_position;
use crate::piece::{copy_strings, same_strings, Piece, PieceView};
use crate::position::{AbsolutePosition, RelativePosition};

verus! {

/// The repeat count of a rule that walks until it is stopped.
pub const UNBOUNDED: usize = usize::MAX;

/// What a move is.
pub struct MoveView {
    pub from: Option<Seq<usize>>,
    pub to: Option<Seq<usize>>,
    pub tag: Option<Seq<char>>,
    pub piece: Option<PieceView>,
    pub captured: Option<PieceView>,
    pub attributes: Option<Seq<Seq<char>>>,
}

/// The move with every field absent: "no legal step here", or a sentinel.
pub open spec fn none_move() -> MoveView {
    MoveView { from: None, to: None, tag: None, piece: None, captured: None, attributes: None }
}

pub open spec fn position_opt<const D: usize>(o: Option<AbsolutePosition<D>>) -> Option<Seq<usize>> {
    match o {
        Some(p) => Some(p@),
        None => None,
    }
}

pub open spec fn piece_opt(o: Option<Piece>) -> Option<PieceView> {
    match o {
        Some(p) => Some(p@),
        None => None,
    }
}

/// A candidate move: where from and to, its tag ("m" for a move to an empty
/// cell, "x" for a capture), the piece that moves, the piece taken, and the
/// attributes of the rule that produced it.
#[derive(Debug, Clone, PartialEq, Eq, Hash, PartialOrd, Ord)]
pub struct MoveType<const D: usize> {
    pub from: Option<AbsolutePosition<D>>,
    pub to: Option<AbsolutePosition<D>>,
    pub move_tag: Option<String>,
    pub piece: Option<Piece>,
    pub captured: Option<Piece>,
    pub attributes: Option<Vec<String>>,
}

impl<const D: usize> View for MoveType<D> {
    type V = MoveView;

    open spec fn view(&self) -> MoveView {
        MoveView {
            from: position_opt(self.from),
            to: position_opt(self.to),
            tag: match self.move_tag {
                Some(s) => Some(s@),
                None => None,
            },
            piece: piece_opt(self.piece),
            captured: piece_opt(self.captured),
            attributes: match self.attributes {
                Some(v) => Some(v.deep_view()),
                None => None,
            },
        }
    }
}

/// What a sequence of moves is.
pub open spec fn moves_view<const D: usize>(v: Seq<MoveType<D>>) -> Seq<MoveView> {
    Seq::new(v.len(), |i: int| v[i]@)
}

impl<const D: usize> MoveType<D> {
    /// A move with the given fields.
    pub fn new(
        from: Option<AbsolutePosition<D>>,
        to: Option<AbsolutePosition<D>>,
        move_tag: Option<String>,
        piece: Option<Piece>,
        captured: Option<Piece>,
        attributes: Option<Vec<String>>,
    ) -> (r: Self)
        ensures
            r.from == from,
            r.to == to,
            r.move_tag == move_tag,
            r.piece == piece,
            r.captured == captured,
            r.attributes == attributes,
    {
        MoveType { from, to, move_tag, piece, captured, attributes }
    }

    /// The move with every field absent.
    pub fn none() -> (r: Self)
        ensures
            r@ == none_move(),
    {
        MoveType { from: None, to: None, move_tag: None, piece: None, captured: None, attributes: None }
    }

    /// A copy of this move.
    pub fn duplicate(&self) -> (r: Self)
        ensures
            r@ == self@,
    {
        MoveType {
            from: self.from,
            to: self.to,
            move_tag: match &self.move_tag {
                Some(s) => Some(s.clone()),
                None => None,
            },
            piece: match &self.piece {
                Some(p) => Some(p.duplicate()),
                None => None,
            },
            captured: match &self.captured {
                Some(p) => Some(p.duplicate()),
                None => None,
            },
            attributes: match &self.attributes {
                Some(v) => Some(copy_strings(v)),
                None => None,
            },
        }
    }

    /// Whether two moves are the same in every field.
    pub fn same(&self, other: &Self) -> (r: bool)
        ensures
            r == (self@ == other@),
    {
        let from = match (&self.from, &other.from) {
            (Some(a), Some(b)) => same_position(a, b),
            (None, None) => true,
            _ => false,
        };
        let to = match (&self.to, &other.to) {
            (Some(a), Some(b)) => same_position(a, b),
            (None, None) => true,
            _ => false,
        };
        let tag = match (&self.move_tag, &other.move_tag) {
            (Some(a), Some(b)) => *a == *b,
            (None, None) => true,
            _ => false,
        };
        let piece = match (&self.piece, &other.piece) {
            (Some(a), Some(b)) => a.same(b),
            (None, None) => true,
            _ => false,
        };
        let captured = match (&self.captured, &other.captured) {
            (Some(a), Some(b)) => a.same(b),
            (None, None) => true,
            _ => false,
        };
        let attributes = match (&self.attributes, &other.attributes) {
            (Some(a), Some(b)) => same_strings(a, b),
            (None, None) => true,
            _ => false,
        };
        from && to && tag && piece && captured && attributes
    }

    /// Whether every field is absent.
    pub fn all_none(&self) -> (r: bool)
        ensures
            r == (self@ == none_move()),
    {
        self.from.is_none() && self.to.is_none() && self.move_tag.is_none() && self.piece.is_none()
            && self.captured.is_none() && self.attributes.is_none()
    }
}

/// The moves of `s`, each kept at its first appearance only.
pub open spec fn distinct(s: Seq<MoveView>) -> Seq<MoveView>
    decreases s.len(),
{
    if s.len() == 0 {
        seq![]
    } else {
        let d = distinct(s.drop_last());
        if d.contains(s.last()) {
            d
        } else {
            d.push(s.last())
        }
    }
}

/// The moves of `moves`, each kept at its first appearance only.
pub fn distinct_moves<const D: usize>(moves: Vec<MoveType<D>>) -> (r: Vec<MoveType<D>>)
    ensures
        moves_view(r@) == distinct(moves_view(moves@)),
{
    let ghost all = moves_view(moves@);
    let mut rest = moves;
    let mut r: Vec<MoveType<D>> = Vec::new();
    let mut i: usize = 0;
    let n = rest.len();
    assert(moves_view(r@) =~= distinct(all.subrange(0, 0)));
    while rest.len() > 0
        invariant
            n == all.len(),
            i + rest@.len() == n,
            moves_view(rest@) == all.subrange(i as int, n as int),
            moves_view(r@) == distinct(all.subrange(0, i as int)),
        decreases rest@.len(),
    {
        let ghost rv = moves_view(rest@);
        let m = rest.remove(0);
        assert(m@ == rv[0]);
        assert(m@ == all[i as int]);
        assert(moves_view(rest@) =~= rv.drop_first());
        assert(moves_view(rest@) =~= all.subrange(i + 1, n as int));
        assert(all.subrange(0, i + 1).drop_last() =~= all.subrange(0, i as int));
        let mut seen = false;
        let mut j: usize = 0;
        while j < r.len() && !seen
            invariant
                j <= r@.len(),
                !seen ==> forall|k: int| 0 <= k < j ==> moves_view(r@)[k] != m@,
                seen ==> j > 0 && moves_view(r@)[j - 1] == m@,
            decreases r@.len() - j,
        {
            if r[j].same(&m) {
                seen = true;
            }
            j = j + 1;
        }
        let ghost before = moves_view(r@);
        assert(seen == before.contains(m@));
        if !seen {
            r.push(m);
            assert(moves_view(r@) =~= before.push(m@));
        }
        i = i + 1;
    }
    assert(all.subrange(0, n as int) =~= all);
    r
}

/// What a movement rule is.
pub struct RuleView {
    pub delta: Seq<isize>,
    pub repeat: nat,
    pub color: Seq<char>,
    pub kind: Seq<char>,
    pub attributes: Seq<Seq<char>>,
}

/// One directional stepping rule for the pieces of one color and kind: a
/// delta, how many times it may be repeated, and its attributes ("move",
/// "capture", "jump", "threatened", ...).
#[derive(Debug, Clone, PartialEq, Eq, Hash)]
pub struct WalkType<const D: usize> {
    pub delta: RelativePosition<D>,
    pub repeat: usize,
    pub color: String,
    pub kind: String,
    pub attributes: Vec<String>,
}

impl<const D: usize> View for WalkType<D> {
    type V = RuleView;

    open spec fn view(&self) -> RuleView {
        RuleView {
            delta: self.delta@,
            repeat: self.repeat as nat,
            color: self.color@,
            kind: self.kind@,
            attributes: self.attributes.deep_view(),
        }
    }
}

/// What a rule table is.
pub open spec fn rules_view<const D: usize>(v: Seq<WalkType<D>>) -> Seq<RuleView> {
    Seq::new(v.len(), |i: int| v[i]@)
}

impl<const D: usize> WalkType<D> {
    /// A rule with the given fields.
    pub fn new(
        delta: RelativePosition<D>,
        repeat: usize,
        color: String,
        kind: String,
        attributes: Vec<String>,
    ) -> (r: Self)
        ensures
            r.delta == delta,
            r.repeat == repeat,
            r.color == color,
            r.kind == kind,
            r.attributes == attributes,
    {
        WalkType { delta, repeat, color, kind, attributes }
    }
}

} // verus!
