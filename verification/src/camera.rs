//! The pinhole camera's pixel grid.

use vstd::prelude::*;

verus! {

/// The position of a pixel along one axis of the image, counted from the
/// middle of the axis: `index - extent / 2`, where `extent` is the number of
/// pixels along the axis and the half is rounded down. The camera scales
/// it by the view's size over `extent` and adds the jitter.
pub fn centered(index: usize, extent: usize) -> (offset: i64)
    requires
        index <= i64::MAX,
        extent <= i64::MAX,
    ensures
        offset == index - extent / 2,
{
    index as i64 - extent as i64 / 2
}

} // verus!
