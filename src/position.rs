use vstd::prelude::*;
use crate::traits::Dimension;

verus! {

/// A cell of the board: one non-negative coordinate per axis.
#[derive(Debug, Clone, Copy, PartialEq, Eq, Hash, PartialOrd, Ord)]
pub struct AbsolutePosition<const D: usize> {
    pub position: [usize; D],
}

/// A displacement between cells: one signed offset per axis.
#[derive(Debug, Clone, Copy, PartialEq, Eq, Hash, PartialOrd, Ord)]
pub struct RelativePosition<const D: usize> {
    pub offset: [isize; D],
}

impl<const D: usize> View for AbsolutePosition<D> {
    type V = Seq<usize>;

    open spec fn view(&self) -> Seq<usize> {
        self.position@
    }
}

impl<const D: usize> View for RelativePosition<D> {
    type V = Seq<isize>;

    open spec fn view(&self) -> Seq<isize> {
        self.offset@
    }
}

/// The offset that leads from `a` to `b`, axis by axis.
pub open spec fn offset_between(a: Seq<usize>, b: Seq<usize>) -> Seq<int> {
    Seq::new(a.len(), |i: int| b[i] - a[i])
}

/// Every axis of `a` and `b` differs by an amount that an `isize` holds.
pub open spec fn offset_fits(a: Seq<usize>, b: Seq<usize>) -> bool {
    forall|i: int|
        0 <= i < a.len() ==> isize::MIN <= #[trigger] b[i] - a[i] <= isize::MAX
}

/// The cell reached from `p` by the offset `d`, or `None` when some axis would
/// leave the non-negative range of `usize`.
pub open spec fn shifted(p: Seq<usize>, d: Seq<isize>) -> Option<Seq<usize>> {
    if forall|i: int| 0 <= i < p.len() ==> 0 <= #[trigger] p[i] + d[i] <= usize::MAX {
        Some(Seq::new(p.len(), |i: int| (p[i] + d[i]) as usize))
    } else {
        None
    }
}

impl<const D: usize> AbsolutePosition<D> {
    /// The offset that leads from `self` to `target`.
    pub fn to_relative(&self, target: &Self) -> (r: RelativePosition<D>)
        requires
            offset_fits(self@, target@),
        ensures
            r@.len() == D,
            forall|i: int| 0 <= i < D ==> r@[i] == offset_between(self@, target@)[i],
    {
        let mut offset: [isize; D] = [0isize; D];
        let mut i: usize = 0;
        while i < D
            invariant
                i <= D,
                offset@.len() == D,
                self@.len() == D,
                target@.len() == D,
                offset_fits(self@, target@),
                forall|j: int| 0 <= j < i ==> offset@[j] == target@[j] - self@[j],
            decreases D - i,
        {
            assert(isize::MIN <= target@[i as int] - self@[i as int] <= isize::MAX);
            let diff: i128 = target.position[i] as i128 - self.position[i] as i128;
            offset[i] = diff as isize;
            i = i + 1;
        }
        RelativePosition { offset }
    }

    /// The cell reached from `self` by `rel`, or `None` when an axis would go
    /// negative (or past the largest `usize`).
    pub fn add_absolute(&self, rel: &RelativePosition<D>) -> (r: Option<Self>)
        ensures
            r matches Some(p) ==> shifted(self@, rel@) == Some(p@),
            r is None <==> shifted(self@, rel@) is None,
    {
        let mut position: [usize; D] = [0usize; D];
        let mut i: usize = 0;
        while i < D
            invariant
                i <= D,
                position@.len() == D,
                self@.len() == D,
                rel@.len() == D,
                forall|j: int| 0 <= j < i ==> 0 <= #[trigger] self@[j] + rel@[j] <= usize::MAX,
                forall|j: int| 0 <= j < i ==> position@[j] == self@[j] + rel@[j],
            decreases D - i,
        {
            let p = self.position[i];
            let o = rel.offset[i];
            if o >= 0 {
                let up = o as usize;
                if p > usize::MAX - up {
                    return None;
                }
                position[i] = p + up;
            } else {
                let down = (-(o as i128)) as usize;
                if p < down {
                    return None;
                }
                position[i] = p - down;
            }
            i = i + 1;
        }
        let r = Self { position };
        assert(r@ =~= Seq::new(self@.len(), |j: int| (self@[j] + rel@[j]) as usize));
        Some(r)
    }
}

impl<const D: usize> Dimension<D> for AbsolutePosition<D> {}

impl<const D: usize> RelativePosition<D> {
    /// The cell reached from `base` by `self`.
    pub fn to_absolute(&self, base: &AbsolutePosition<D>) -> (r: Option<AbsolutePosition<D>>)
        ensures
            r matches Some(p) ==> shifted(base@, self@) == Some(p@),
            r is None <==> shifted(base@, self@) is None,
    {
        base.add_absolute(self)
    }

    /// The offset that leads from `base` to `target`.
    pub fn from_absolute(base: &AbsolutePosition<D>, target: &AbsolutePosition<D>) -> (r: Self)
        requires
            offset_fits(base@, target@),
        ensures
            r@.len() == D,
            forall|i: int| 0 <= i < D ==> r@[i] == offset_between(base@, target@)[i],
    {
        base.to_relative(target)
    }
}

impl<const D: usize> Dimension<D> for RelativePosition<D> {}

} // verus!
