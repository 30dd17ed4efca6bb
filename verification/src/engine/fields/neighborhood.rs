use vstd::prelude::*;

use crate::engine::location::Int2D;
use vstd::arithmetic::div_mod::{lemma_fundamental_div_mod, lemma_fundamental_div_mod_converse};

verus! {

/// The remainder that Rust's `%` computes on integers: rounded toward zero, with
/// the sign of `n`.
pub open spec fn trunc_rem(n: int, size: int) -> int {
    if n >= 0 {
        n % size
    } else {
        -((-n) % size)
    }
}

/// A discretized coordinate `n` brought back into a dimension of `size` cells:
/// the remainder of `n`, moved up by `size` when `n` is negative.
pub open spec fn wrap(n: int, size: int) -> int {
    if n >= 0 {
        trunc_rem(n, size)
    } else {
        trunc_rem(n, size) + size
    }
}

/// Computing `wrap(n, size)` on `i32` neither divides by zero nor overflows.
pub open spec fn wrap_defined(n: int, size: int) -> bool {
    &&& size != 0
    &&& !(n == i32::MIN && size == -1)
    &&& i32::MIN <= wrap(n, size) <= i32::MAX
}

/// Brings the discretized coordinate `n` into a dimension of `size` cells: `n % size`
/// when `n` is not negative, `n % size + size` when it is.
pub fn t_transform(n: i32, size: i32) -> (r: i32)
    requires
        wrap_defined(n as int, size as int),
    ensures
        r == wrap(n as int, size as int),
{
    if n >= 0 {
        n % size
    } else {
        (n % size) + size
    }
}

/// Whether `t_transform(n, size)` can be computed.
pub fn t_transform_defined(n: i32, size: i32) -> (b: bool)
    ensures
        b == wrap_defined(n as int, size as int),
{
    if size == 0 || (n == i32::MIN && size == -1) {
        return false;
    }
    let rem = n % size;
    if n >= 0 {
        return true;
    }
    let moved = rem as i64 + size as i64;
    i32::MIN as i64 <= moved && moved <= i32::MAX as i64
}

/// On a dimension of `size > 0` cells, `wrap` (what `t_transform` computes) keeps
/// the residue of its coordinate modulo `size` and lands in `[0, size)`, except on a
/// negative multiple of `size`, which it maps to `size` itself.
pub proof fn lemma_wrap_residue(n: int, size: int)
    requires
        size > 0,
    ensures
        wrap(n, size) % size == n % size,
        n >= 0 ==> wrap(n, size) == n % size,
        (n >= 0 || n % size != 0) ==> 0 <= wrap(n, size) < size,
        (n >= 0 || n % size != 0) ==> wrap(n, size) == n % size,
        (n < 0 && n % size == 0) ==> wrap(n, size) == size,
{
    if n < 0 {
        let q = (-n) / size;
        let r = (-n) % size;
        lemma_fundamental_div_mod(-n, size);
        assert(0 <= r < size);
        lemma_fundamental_div_mod_converse(size, size, 1, 0);
        if r == 0 {
            assert(n == (-q) * size + 0) by (nonlinear_arith)
                requires
                    -n == size * q + r,
                    r == 0,
            ;
            lemma_fundamental_div_mod_converse(n, size, -q, 0);
        } else {
            assert(n == (-q - 1) * size + (size - r)) by (nonlinear_arith)
                requires
                    -n == size * q + r,
            ;
            lemma_fundamental_div_mod_converse(n, size, -q - 1, size - r);
            lemma_fundamental_div_mod_converse(size - r, size, 0, size - r);
        }
    } else {
        lemma_fundamental_div_mod(n, size);
        let r = n % size;
        assert(0 <= r < size);
        lemma_fundamental_div_mod_converse(r, size, 0, r);
    }
}

/// Lowest discretized coordinate of the window of radius `d` around `c`;
/// clamped at zero on a toroidal grid.
pub open spec fn window_low(c: int, d: int, toroidal: bool) -> int {
    if toroidal && c - d < 0 {
        0
    } else {
        c - d
    }
}

/// Highest discretized coordinate of the window of radius `d` around `c`;
/// clamped at `size - 1` on a toroidal grid.
pub open spec fn window_high(c: int, d: int, size: int, toroidal: bool) -> int {
    if toroidal && size - 1 < c + d {
        size - 1
    } else {
        c + d
    }
}

/// Number of integers in `[lo, hi]`.
pub open spec fn span(lo: int, hi: int) -> nat {
    if lo <= hi {
        (hi - lo + 1) as nat
    } else {
        0
    }
}

/// The cell that the window position `(i, j)` names once wrapped into the grid.
pub open spec fn window_cell(i: int, j: int, max_x: int, max_y: int) -> Int2D {
    Int2D { x: wrap(i, max_x) as i32, y: wrap(j, max_y) as i32 }
}

/// The cells of window column `i`, for `cols` rows starting at `lo_j`, in order.
pub open spec fn column_cells(i: int, lo_j: int, cols: nat, max_x: int, max_y: int) -> Seq<Int2D>
    decreases cols,
{
    if cols == 0 {
        Seq::empty()
    } else {
        column_cells(i, lo_j, (cols - 1) as nat, max_x, max_y).push(
            window_cell(i, lo_j + cols - 1, max_x, max_y),
        )
    }
}

/// The cells of a window of `rows` columns from `lo_i` and `cols` rows from `lo_j`:
/// column by column, and within a column by increasing row.
pub open spec fn window_cells(
    lo_i: int,
    lo_j: int,
    rows: nat,
    cols: nat,
    max_x: int,
    max_y: int,
) -> Seq<Int2D>
    decreases rows,
{
    if rows == 0 {
        Seq::empty()
    } else {
        window_cells(lo_i, lo_j, (rows - 1) as nat, cols, max_x, max_y) + column_cells(
            lo_i + rows - 1,
            lo_j,
            cols,
            max_x,
            max_y,
        )
    }
}

/// The window position `(i, j)` can be brought into the grid on `i32`.
pub open spec fn window_cell_defined(i: int, j: int, max_x: int, max_y: int) -> bool {
    wrap_defined(i, max_x) && wrap_defined(j, max_y)
}

/// The neighbourhood of radius `d` around the discretized location `c` can be
/// enumerated on `i32` without overflow or a division by zero.
pub open spec fn neighborhood_defined(c: Int2D, d: i32, max_x: i32, max_y: i32, toroidal: bool) -> bool {
    let lo_i = window_low(c.x as int, d as int, toroidal);
    let hi_i = window_high(c.x as int, d as int, max_x as int, toroidal);
    let lo_j = window_low(c.y as int, d as int, toroidal);
    let hi_j = window_high(c.y as int, d as int, max_y as int, toroidal);
    &&& i32::MIN <= c.x - d <= i32::MAX
    &&& i32::MIN <= c.x + d <= i32::MAX
    &&& i32::MIN <= c.y - d <= i32::MAX
    &&& i32::MIN <= c.y + d <= i32::MAX
    &&& toroidal ==> max_x > i32::MIN && max_y > i32::MIN
    &&& hi_i < i32::MAX
    &&& lo_i <= hi_i ==> hi_j < i32::MAX
    &&& forall|i: int, j: int|
        lo_i <= i <= hi_i && lo_j <= j <= hi_j ==> #[trigger] window_cell_defined(
            i,
            j,
            max_x as int,
            max_y as int,
        )
}

/// The cells, in visiting order, whose bags make up the neighbourhood of radius `d`
/// around the discretized location `c`.
pub open spec fn neighborhood_cells(c: Int2D, d: i32, max_x: i32, max_y: i32, toroidal: bool) -> Seq<Int2D> {
    let lo_i = window_low(c.x as int, d as int, toroidal);
    let hi_i = window_high(c.x as int, d as int, max_x as int, toroidal);
    let lo_j = window_low(c.y as int, d as int, toroidal);
    let hi_j = window_high(c.y as int, d as int, max_y as int, toroidal);
    window_cells(lo_i, lo_j, span(lo_i, hi_i), span(lo_j, hi_j), max_x as int, max_y as int)
}

/// The cells whose bags hold the neighbours within the relaxed distance `disc_dist`
/// (in cells) of the discretized location `disc_loc`, on a grid of `max_x` by `max_y`
/// cells: every cell of the window around `disc_loc`, brought into the grid with
/// `t_transform`, the window clamped to the grid when `toroidal` holds. `None` where
/// enumerating them overflows `i32` or divides by zero.
pub fn relax_distance_cells(
    disc_loc: Int2D,
    disc_dist: i32,
    max_x: i32,
    max_y: i32,
    toroidal: bool,
) -> (r: Option<Vec<Int2D>>)
    ensures
        r is Some <==> neighborhood_defined(disc_loc, disc_dist, max_x, max_y, toroidal),
        r matches Some(cells) ==> cells@ == neighborhood_cells(
            disc_loc,
            disc_dist,
            max_x,
            max_y,
            toroidal,
        ),
{
    let x = disc_loc.x as i64;
    let y = disc_loc.y as i64;
    let d = disc_dist as i64;
    if x - d < i32::MIN as i64 || x - d > i32::MAX as i64 || x + d < i32::MIN as i64 || x + d
        > i32::MAX as i64 || y - d < i32::MIN as i64 || y - d > i32::MAX as i64 || y + d
        < i32::MIN as i64 || y + d > i32::MAX as i64 {
        return None;
    }
    let mut min_i = disc_loc.x - disc_dist;
    let mut max_i = disc_loc.x + disc_dist;
    let mut min_j = disc_loc.y - disc_dist;
    let mut max_j = disc_loc.y + disc_dist;
    if toroidal {
        if max_x == i32::MIN || max_y == i32::MIN {
            return None;
        }
        if min_i < 0 {
            min_i = 0;
        }
        if max_x - 1 < max_i {
            max_i = max_x - 1;
        }
        if min_j < 0 {
            min_j = 0;
        }
        if max_y - 1 < max_j {
            max_j = max_y - 1;
        }
    }
    let ghost rows = span(min_i as int, max_i as int);
    let ghost cols = span(min_j as int, max_j as int);
    if max_i == i32::MAX {
        return None;
    }
    if min_i <= max_i && max_j == i32::MAX {
        return None;
    }
    let end_i = max_i + 1;
    let mut cells: Vec<Int2D> = Vec::new();
    let mut i = min_i;
    while i < end_i
        invariant
            min_i == window_low(disc_loc.x as int, disc_dist as int, toroidal),
            max_i == window_high(disc_loc.x as int, disc_dist as int, max_x as int, toroidal),
            min_j == window_low(disc_loc.y as int, disc_dist as int, toroidal),
            max_j == window_high(disc_loc.y as int, disc_dist as int, max_y as int, toroidal),
            min_i <= i,
            i <= end_i || i == min_i,
            end_i == max_i + 1,
            min_i <= max_i ==> max_j < i32::MAX,
            rows == span(min_i as int, max_i as int),
            cols == span(min_j as int, max_j as int),
            cells@ == window_cells(
                min_i as int,
                min_j as int,
                (i - min_i) as nat,
                cols,
                max_x as int,
                max_y as int,
            ),
            forall|ii: int, jj: int|
                min_i <= ii < i && min_j <= jj <= max_j ==> #[trigger] window_cell_defined(
                    ii,
                    jj,
                    max_x as int,
                    max_y as int,
                ),
        decreases end_i - i,
    {
        let end_j = max_j + 1;
        let mut j = min_j;
        while j < end_j
            invariant
                min_i == window_low(disc_loc.x as int, disc_dist as int, toroidal),
                max_i == window_high(disc_loc.x as int, disc_dist as int, max_x as int, toroidal),
                min_j == window_low(disc_loc.y as int, disc_dist as int, toroidal),
                max_j == window_high(disc_loc.y as int, disc_dist as int, max_y as int, toroidal),
                min_i <= i < end_i,
                end_i == max_i + 1,
                end_j == max_j + 1,
                min_j <= j,
                j <= end_j || j == min_j,
                cols == span(min_j as int, max_j as int),
                cells@ == window_cells(
                    min_i as int,
                    min_j as int,
                    (i - min_i) as nat,
                    cols,
                    max_x as int,
                    max_y as int,
                ) + column_cells(i as int, min_j as int, (j - min_j) as nat, max_x as int, max_y as int),
                forall|ii: int, jj: int|
                    min_i <= ii < i && min_j <= jj <= max_j ==> #[trigger] window_cell_defined(
                        ii,
                        jj,
                        max_x as int,
                        max_y as int,
                    ),
                forall|jj: int|
                    min_j <= jj < j ==> #[trigger] window_cell_defined(
                        i as int,
                        jj,
                        max_x as int,
                        max_y as int,
                    ),
            decreases end_j - j,
        {
            if !t_transform_defined(i, max_x) || !t_transform_defined(j, max_y) {
                assert(!window_cell_defined(i as int, j as int, max_x as int, max_y as int));
                return None;
            }
            let cell = Int2D { x: t_transform(i, max_x), y: t_transform(j, max_y) };
            cells.push(cell);
            j = j + 1;
        }
        assert forall|ii: int, jj: int|
            min_i <= ii < i + 1 && min_j <= jj <= max_j implies #[trigger] window_cell_defined(
            ii,
            jj,
            max_x as int,
            max_y as int,
        ) by {
            if ii == i {
                assert(jj < j);
            }
        }
        i = i + 1;
    }
    Some(cells)
}


proof fn lemma_column_cells(i: int, lo_j: int, cols: nat, max_x: int, max_y: int)
    ensures
        column_cells(i, lo_j, cols, max_x, max_y).len() == cols,
        forall|k: int|
            0 <= k < cols ==> #[trigger] column_cells(i, lo_j, cols, max_x, max_y)[k]
                == window_cell(i, lo_j + k, max_x, max_y),
    decreases cols,
{
    if cols > 0 {
        lemma_column_cells(i, lo_j, (cols - 1) as nat, max_x, max_y);
    }
}

proof fn lemma_window_cells_in_grid(lo_i: int, lo_j: int, rows: nat, cols: nat, max_x: int, max_y: int)
    requires
        0 <= lo_i,
        rows > 0 ==> lo_i + rows <= max_x,
        0 <= lo_j,
        cols > 0 ==> lo_j + cols <= max_y,
        max_x <= i32::MAX,
        max_y <= i32::MAX,
    ensures
        window_cells(lo_i, lo_j, rows, cols, max_x, max_y).len() == rows * cols,
        forall|k: int|
            0 <= k < window_cells(lo_i, lo_j, rows, cols, max_x, max_y).len() ==> {
                let cell = #[trigger] window_cells(lo_i, lo_j, rows, cols, max_x, max_y)[k];
                &&& 0 <= cell.x < max_x
                &&& 0 <= cell.y < max_y
            },
    decreases rows,
{
    if rows > 0 {
        let i = lo_i + rows - 1;
        lemma_window_cells_in_grid(lo_i, lo_j, (rows - 1) as nat, cols, max_x, max_y);
        lemma_column_cells(i, lo_j, cols, max_x, max_y);
        assert((rows - 1) * cols + cols == rows * cols) by (nonlinear_arith);
        let prefix = window_cells(lo_i, lo_j, (rows - 1) as nat, cols, max_x, max_y);
        let column = column_cells(i, lo_j, cols, max_x, max_y);
        assert forall|k: int| 0 <= k < column.len() implies {
            let cell = #[trigger] column[k];
            &&& 0 <= cell.x < max_x
            &&& 0 <= cell.y < max_y
        } by {
            assert(column[k] == window_cell(i, lo_j + k, max_x, max_y));
            lemma_wrap_residue(i, max_x);
            lemma_wrap_residue(lo_j + k, max_y);
            vstd::arithmetic::div_mod::lemma_small_mod(i as nat, max_x as nat);
            vstd::arithmetic::div_mod::lemma_small_mod((lo_j + k) as nat, max_y as nat);
        }
        assert forall|k: int| 0 <= k < prefix.len() + column.len() implies {
            let cell = #[trigger] (prefix + column)[k];
            &&& 0 <= cell.x < max_x
            &&& 0 <= cell.y < max_y
        } by {
            if k >= prefix.len() {
                assert((prefix + column)[k] == column[k - prefix.len()]);
            } else {
                assert((prefix + column)[k] == prefix[k]);
            }
        }
    } else {
        assert(rows * cols == 0) by (nonlinear_arith)
            requires
                rows == 0,
        ;
    }
}

/// On a toroidal grid of `max_x` by `max_y` cells (both positive), every cell of a
/// neighbourhood lies on the grid, and a neighbourhood has as many cells as its
/// clamped window.
pub proof fn lemma_toroidal_neighborhood_in_grid(c: Int2D, d: i32, max_x: i32, max_y: i32)
    requires
        max_x > 0,
        max_y > 0,
    ensures
        ({
            let cells = neighborhood_cells(c, d, max_x, max_y, true);
            &&& cells.len() == span(
                window_low(c.x as int, d as int, true),
                window_high(c.x as int, d as int, max_x as int, true),
            ) * span(
                window_low(c.y as int, d as int, true),
                window_high(c.y as int, d as int, max_y as int, true),
            )
            &&& forall|k: int|
                0 <= k < cells.len() ==> 0 <= (#[trigger] cells[k]).x < max_x && 0 <= cells[k].y
                    < max_y
        }),
{
    let lo_i = window_low(c.x as int, d as int, true);
    let hi_i = window_high(c.x as int, d as int, max_x as int, true);
    let lo_j = window_low(c.y as int, d as int, true);
    let hi_j = window_high(c.y as int, d as int, max_y as int, true);
    lemma_window_cells_in_grid(
        lo_i,
        lo_j,
        span(lo_i, hi_i),
        span(lo_j, hi_j),
        max_x as int,
        max_y as int,
    );
}

proof fn lemma_index_in_window(k: int, rows: int, cols: int)
    requires
        0 <= k < rows * cols,
        0 <= rows,
        0 <= cols,
    ensures
        0 <= k / cols < rows,
        0 <= k % cols < cols,
{
    if cols == 0 {
        assert(rows * cols == 0) by (nonlinear_arith)
            requires
                cols == 0,
        ;
    } else {
        lemma_fundamental_div_mod(k, cols);
        let q = k / cols;
        let r = k % cols;
        assert(0 <= q < rows) by (nonlinear_arith)
            requires
                k == cols * q + r,
                0 <= r < cols,
                0 <= k < rows * cols,
                0 < cols,
        ;
    }
}

proof fn lemma_window_cells_index(lo_i: int, lo_j: int, rows: nat, cols: nat, max_x: int, max_y: int)
    ensures
        window_cells(lo_i, lo_j, rows, cols, max_x, max_y).len() == rows * cols,
        forall|k: int|
            0 <= k < rows * cols ==> #[trigger] window_cells(lo_i, lo_j, rows, cols, max_x, max_y)[k]
                == window_cell(lo_i + k / (cols as int), lo_j + k % (cols as int), max_x, max_y),
    decreases rows,
{
    if rows == 0 {
        assert(rows * cols == 0) by (nonlinear_arith)
            requires
                rows == 0,
        ;
        assert(window_cells(lo_i, lo_j, rows, cols, max_x, max_y).len() == 0);
        assert forall|k: int| 0 <= k < rows * cols implies #[trigger] window_cells(lo_i, lo_j, rows, cols, max_x, max_y)[k] == window_cell(
            lo_i + k / (cols as int),
            lo_j + k % (cols as int),
            max_x,
            max_y,
        ) by {}
    } else {
        let prev = (rows - 1) as nat;
        lemma_window_cells_index(lo_i, lo_j, prev, cols, max_x, max_y);
        lemma_column_cells(lo_i + rows - 1, lo_j, cols, max_x, max_y);
        assert(prev * cols + cols == rows * cols) by (nonlinear_arith)
            requires
                prev == rows - 1,
        ;
        let prefix = window_cells(lo_i, lo_j, prev, cols, max_x, max_y);
        let column = column_cells(lo_i + rows - 1, lo_j, cols, max_x, max_y);
        assert forall|k: int| 0 <= k < rows * cols implies #[trigger] window_cells(lo_i, lo_j, rows, cols, max_x, max_y)[k] == window_cell(
            lo_i + k / (cols as int),
            lo_j + k % (cols as int),
            max_x,
            max_y,
        ) by {
            assert(window_cells(lo_i, lo_j, rows, cols, max_x, max_y) == prefix + column);
            if k < prev * cols {
                assert((prefix + column)[k] == prefix[k]);
                assert(prefix[k] == window_cell(lo_i + k / (cols as int), lo_j + k % (cols as int), max_x, max_y));
            } else {
                let r = k - prev * cols;
                assert(0 <= r < cols);
                assert(k == prev * (cols as int) + r);
                lemma_fundamental_div_mod_converse(k, cols as int, prev as int, r);
                assert((prefix + column)[k] == column[r]);
            }
        }
        assert(window_cells(lo_i, lo_j, rows, cols, max_x, max_y).len() == rows * cols);
    }
}

/// Every cell of a neighbourhood is its window position brought onto a grid of
/// `max_x` by `max_y` cells (both positive) by the coordinate wrap. The window is
/// `[lo_i, hi_i] x [lo_j, hi_j]` around `c` with radius `d` (clamped to the grid when
/// `toroidal` holds), visited column by column, so the neighbourhood has
/// `rows * cols` cells and its `k`-th cell comes from column `i = lo_i + k / cols` and
/// row `j = lo_j + k % cols`. That cell's x is congruent to `i` modulo `max_x` and its y
/// to `j` modulo `max_y`; a non-negative position maps to its remainder; and the cell
/// lies on the grid unless the position is a negative multiple of the dimension,
/// which maps to the dimension itself.
pub proof fn lemma_neighborhood_cell_wraps_position(
    c: Int2D,
    d: i32,
    max_x: i32,
    max_y: i32,
    toroidal: bool,
    k: int,
)
    requires
        max_x > 0,
        max_y > 0,
        neighborhood_defined(c, d, max_x, max_y, toroidal),
    ensures
        ({
            let cells = neighborhood_cells(c, d, max_x, max_y, toroidal);
            let lo_i: int = if toroidal && c.x - d < 0 { 0 } else { c.x - d };
            let hi_i: int = if toroidal && max_x - 1 < c.x + d { max_x - 1 } else { c.x + d };
            let lo_j: int = if toroidal && c.y - d < 0 { 0 } else { c.y - d };
            let hi_j: int = if toroidal && max_y - 1 < c.y + d { max_y - 1 } else { c.y + d };
            let rows: int = if lo_i <= hi_i { hi_i - lo_i + 1 } else { 0 };
            let cols: int = if lo_j <= hi_j { hi_j - lo_j + 1 } else { 0 };
            let i = lo_i + k / cols;
            let j = lo_j + k % cols;
            &&& cells.len() == rows * cols
            &&& 0 <= k < cells.len() ==> {
                &&& lo_i <= i <= hi_i
                &&& lo_j <= j <= hi_j
                &&& (cells[k].x as int) % (max_x as int) == i % (max_x as int)
                &&& (cells[k].y as int) % (max_y as int) == j % (max_y as int)
                &&& (i >= 0 ==> cells[k].x == i % (max_x as int))
                &&& (j >= 0 ==> cells[k].y == j % (max_y as int))
                &&& ((i >= 0 || i % (max_x as int) != 0) ==> 0 <= cells[k].x < max_x)
                &&& ((j >= 0 || j % (max_y as int) != 0) ==> 0 <= cells[k].y < max_y)
            }
        }),
{
    let cells = neighborhood_cells(c, d, max_x, max_y, toroidal);
    let lo_i: int = if toroidal && c.x - d < 0 { 0 } else { c.x - d };
    let hi_i: int = if toroidal && max_x - 1 < c.x + d { max_x - 1 } else { c.x + d };
    let lo_j: int = if toroidal && c.y - d < 0 { 0 } else { c.y - d };
    let hi_j: int = if toroidal && max_y - 1 < c.y + d { max_y - 1 } else { c.y + d };
    let rows: int = if lo_i <= hi_i { hi_i - lo_i + 1 } else { 0 };
    let cols: int = if lo_j <= hi_j { hi_j - lo_j + 1 } else { 0 };
    assert(span(lo_i, hi_i) == rows);
    assert(span(lo_j, hi_j) == cols);
    lemma_window_cells_index(lo_i, lo_j, rows as nat, cols as nat, max_x as int, max_y as int);
    if 0 <= k < cells.len() {
        let i = lo_i + k / cols;
        let j = lo_j + k % cols;
        lemma_index_in_window(k, rows, cols);
        assert(cells[k] == window_cell(i, j, max_x as int, max_y as int));
        assert(window_cell_defined(i, j, max_x as int, max_y as int));
        lemma_wrap_residue(i, max_x as int);
        lemma_wrap_residue(j, max_y as int);
    }
}

} // verus!
