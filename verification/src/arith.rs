use vstd::prelude::*;

verus! {

/// Integer division rounding toward zero, as Rust's `/` on signed integers.
pub open spec fn trunc_div(a: int, b: int) -> int {
    if a >= 0 {
        a / b
    } else {
        -((-a) / b)
    }
}

/// Remainder of `trunc_div`, as Rust's `%` on signed integers: it takes the
/// sign of `a`.
pub open spec fn trunc_rem(a: int, b: int) -> int {
    if a >= 0 {
        a % b
    } else {
        -((-a) % b)
    }
}

/// The cell in column `x` and row `y` of a `w` by `h` grid, counted row
/// after row, lies inside the grid.
pub proof fn lemma_row_major_index(w: int, h: int, x: int, y: int)
    requires
        0 <= x < w,
        0 <= y < h,
    ensures
        0 <= w * y + x < w * h,
{
    assert(w * y <= w * (h - 1)) by (nonlinear_arith)
        requires
            0 <= y < h,
            0 <= w,
    ;
    assert(w * (h - 1) == w * h - w) by (nonlinear_arith);
    assert(0 <= w * y) by (nonlinear_arith)
        requires
            0 <= y,
            0 <= w,
    ;
}

} // verus!
