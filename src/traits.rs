use vstd::prelude::*;

verus! {

/// A value that lives in a space of `D` coordinate axes.
pub trait Dimension<const D: usize> {
    /// The number of axes.
    fn dimensions() -> (r: usize)
        ensures
            r == D,
    {
        D
    }
}

} // verus!
