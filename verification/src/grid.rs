//! Row-major indexing facts shared by the grid-based games.
use vstd::prelude::*;

verus! {

/// In a `w` by `h` grid stored row-major, the slot of in-bounds
/// coordinates lies inside the backing sequence.
pub broadcast proof fn lemma_row_major_in_range(w: int, h: int, x: int, y: int)
    requires
        0 <= x < w,
        0 <= y < h,
    ensures
        #![trigger y * w + x, w * h]
        0 <= y * w + x < w * h,
{
    assert(0 <= y * w + x && y * w + x < w * h) by (nonlinear_arith)
        requires
            0 <= x < w,
            0 <= y < h,
    ;
}

/// Row-major slots are injective: distinct in-bounds coordinates have
/// distinct slots.
pub broadcast proof fn lemma_row_major_injective(w: int, x1: int, y1: int, x2: int, y2: int)
    requires
        0 <= x1 < w,
        0 <= y1,
        0 <= x2 < w,
        0 <= y2,
    ensures
        #![trigger y1 * w + x1, y2 * w + x2]
        y1 * w + x1 == y2 * w + x2 ==> x1 == x2 && y1 == y2,
{
    if y1 * w + x1 == y2 * w + x2 {
        assert(x1 == x2 && y1 == y2) by (nonlinear_arith)
            requires
                0 <= x1 < w,
                0 <= y1,
                0 <= x2 < w,
                0 <= y2,
                y1 * w + x1 == y2 * w + x2,
        ;
    }
}

} // verus!
