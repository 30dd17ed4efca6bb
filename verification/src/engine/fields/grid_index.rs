use vstd::prelude::*;

use crate::engine::location::Int2D;

verus! {

/// Position of `loc` in the row-major storage of a grid that is `width` cells wide.
pub open spec fn row_major_index(width: int, loc: Int2D) -> int {
    loc.y * width + loc.x
}

/// `loc` names one of the `cells` stored cells of a grid `width` cells wide, and
/// `loc.y * width + loc.x` is computed in `i32` without overflow.
pub open spec fn index_ok(width: i32, loc: Int2D, cells: nat) -> bool {
    &&& i32::MIN <= loc.y * width <= i32::MAX
    &&& 0 <= row_major_index(width as int, loc) < cells
    &&& row_major_index(width as int, loc) <= i32::MAX
}

/// The storage index of `loc` in a row-major grid `width` cells wide holding
/// `cells` cells, or `None` where computing it overflows `i32` or lands outside
/// the storage.
pub fn cell_index(width: i32, loc: &Int2D, cells: usize) -> (r: Option<usize>)
    ensures
        r is Some <==> index_ok(width, *loc, cells as nat),
        r matches Some(i) ==> i == row_major_index(width as int, *loc),
{
    let y = loc.y as i64;
    let w = width as i64;
    assert(-0x4000_0000_0000_0000 <= y * w <= 0x4000_0000_0000_0000) by (nonlinear_arith)
        requires
            i32::MIN <= y <= i32::MAX,
            i32::MIN <= w <= i32::MAX,
    ;
    let product = y * w;
    if product < i32::MIN as i64 || product > i32::MAX as i64 {
        return None;
    }
    let sum = product + loc.x as i64;
    if sum < 0 || sum > i32::MAX as i64 {
        return None;
    }
    if (sum as usize) < cells {
        Some(sum as usize)
    } else {
        None
    }
}

/// Row-major indexing gives distinct cells of a `width` wide grid distinct storage
/// slots: two locations with `0 <= x < width` and `y >= 0` share an index only if
/// they are the same location.
pub proof fn lemma_row_major_injective(width: int, a: Int2D, b: Int2D)
    requires
        0 <= a.x < width,
        0 <= b.x < width,
        0 <= a.y,
        0 <= b.y,
        row_major_index(width, a) == row_major_index(width, b),
    ensures
        a == b,
{
    if a.y < b.y {
        assert(a.y * width + width <= b.y * width) by (nonlinear_arith)
            requires
                a.y < b.y,
                0 < width,
        ;
    } else if b.y < a.y {
        assert(b.y * width + width <= a.y * width) by (nonlinear_arith)
            requires
                b.y < a.y,
                0 < width,
        ;
    }
}

/// Row-major indexing maps the cells of a `width` by `height` grid into the
/// storage range `[0, width * height)`.
pub proof fn lemma_row_major_in_range(width: int, height: int, loc: Int2D)
    requires
        0 <= loc.x < width,
        0 <= loc.y < height,
    ensures
        0 <= row_major_index(width, loc) < width * height,
{
    assert(0 <= loc.y * width + loc.x < width * height) by (nonlinear_arith)
        requires
            0 <= loc.x < width,
            0 <= loc.y < height,
    ;
}

} // verus!
