use vstd::prelude::*;

use crate::engine::fields::grid_index::{cell_index, index_ok, row_major_index};
use crate::engine::fields::grid_option::GridOption;
use crate::engine::location::Int2D;

verus! {

/// The value that a row-major grid `width` cells wide holds at `loc`.
pub open spec fn value_at<T>(values: Seq<Option<T>>, width: i32, loc: Int2D) -> Option<T> {
    values[row_major_index(width as int, loc)]
}

/// The values of a row-major grid `width` cells wide once `value` is written at `loc`.
pub open spec fn with_value_at<T>(values: Seq<Option<T>>, width: i32, loc: Int2D, value: T) -> Seq<
    Option<T>,
> {
    values.update(row_major_index(width as int, loc), Some(value))
}

/// `after` holds what applying `closure` to every value of `before` may give: empty
/// cells stay empty, and each value `v` becomes some `r` with `closure.ensures((&v,), r)`.
pub open spec fn applied_to_all<T, F: Fn(&T) -> T>(
    before: Seq<Option<T>>,
    after: Seq<Option<T>>,
    closure: F,
) -> bool {
    &&& after.len() == before.len()
    &&& forall|i: int|
        0 <= i < before.len() ==> match #[trigger] before[i] {
            None => after[i] is None,
            Some(v) => after[i] is Some && closure.ensures((&v,), after[i].unwrap()),
        }
}

/// The magnitude of a grid dimension.
pub open spec fn dimension_magnitude(n: int) -> int {
    if n < 0 {
        -n
    } else {
        n
    }
}

/// A dense grid that holds at most one value in each cell.
pub struct DenseSingleValueGrid2D<T: Copy + Clone + PartialEq> {
    pub values: Vec<Option<T>>,
    pub width: i32,
    pub height: i32,
}

impl<T: Copy + Clone + PartialEq> DenseSingleValueGrid2D<T> {
    /// A grid of `width * height` empty cells. Its dimensions are stored as
    /// magnitudes.
    pub fn new(width: i32, height: i32) -> (grid: DenseSingleValueGrid2D<T>)
        requires
            0 <= width * height <= i32::MAX,
            width != i32::MIN,
            height != i32::MIN,
        ensures
            grid.values.len() == width * height,
            forall|i: int| 0 <= i < grid.values.len() ==> grid.values[i] is None,
            grid.width == dimension_magnitude(width as int),
            grid.height == dimension_magnitude(height as int),
    {
        let cells = (width * height) as usize;
        let mut values: Vec<Option<T>> = Vec::new();
        let mut i: usize = 0;
        while i < cells
            invariant
                i <= cells,
                values.len() == i,
                forall|k: int| 0 <= k < values.len() ==> values[k] is None,
            decreases cells - i,
        {
            values.push(None);
            i = i + 1;
        }
        DenseSingleValueGrid2D {
            values,
            width: if width < 0 { -width } else { width },
            height: if height < 0 { -height } else { height },
        }
    }

    /// Replaces every value `v` that the grid holds with `closure(&v)`; empty cells stay
    /// empty. `option` names the buffer addressed; this grid has one.
    pub fn apply_to_all_values<F>(&mut self, closure: F, option: GridOption)
        where
            F: Fn(&T) -> T,
        requires
            forall|i: int|
                0 <= i < old(self).values.len() && (#[trigger] old(self).values[i]) is Some
                    ==> closure.requires((&old(self).values[i].unwrap(),)),
        ensures
            final(self).width == old(self).width,
            final(self).height == old(self).height,
            final(self).values.len() == old(self).values.len(),
            forall|i: int|
                0 <= i < old(self).values.len() ==> match #[trigger] old(self).values[i] {
                    None => final(self).values[i] is None,
                    Some(v) => final(self).values[i] is Some && closure.ensures(
                        (&v,),
                        final(self).values[i].unwrap(),
                    ),
                },            applied_to_all(old(self).values@, final(self).values@, closure),
    {
        let n = self.values.len();
        let mut i: usize = 0;
        while i < n
            invariant
                n == old(self).values.len(),
                self.values.len() == n,
                self.width == old(self).width,
                self.height == old(self).height,
                i <= n,
                forall|k: int|
                    0 <= k < n && (#[trigger] old(self).values[k]) is Some ==> closure.requires(
                        (&old(self).values[k].unwrap(),),
                    ),
                forall|k: int| i <= k < n ==> self.values[k] == old(self).values[k],
                forall|k: int|
                    0 <= k < i ==> match #[trigger] old(self).values[k] {
                        None => self.values[k] is None,
                        Some(v) => self.values[k] is Some && closure.ensures(
                            (&v,),
                            self.values[k].unwrap(),
                        ),
                    },
            decreases n - i,
        {
            let elem = self.values[i];
            if let Some(v) = elem {
                let r = closure(&v);
                self.values.set(i, Some(r));
            }
            i = i + 1;
        }
    }

    /// Writes `value` into the cell at `loc`.
    pub fn set_value_location(&mut self, value: T, loc: &Int2D)
        requires
            index_ok(old(self).width, *loc, old(self).values.len() as nat),
        ensures
            final(self).width == old(self).width,
            final(self).height == old(self).height,
            final(self).values@ == with_value_at(old(self).values@, old(self).width, *loc, value),
    {
        let index = self.compute_index(loc);
        self.values.set(index, Some(value));
    }

    /// The value held in the cell at `loc`, if any.
    pub fn get_value(&self, loc: &Int2D) -> (r: Option<T>)
        requires
            index_ok(self.width, *loc, self.values.len() as nat),
        ensures
            r == value_at(self.values@, self.width, *loc),
    {
        self.values[self.compute_index(loc)]
    }

    fn compute_index(&self, loc: &Int2D) -> (r: usize)
        requires
            index_ok(self.width, *loc, self.values.len() as nat),
        ensures
            r == row_major_index(self.width as int, *loc),
    {
        match cell_index(self.width, loc, self.values.len()) {
            Some(index) => index,
            None => vstd::pervasive::unreached(),
        }
    }
}

/// Reading a cell gives back the value last written there; writing a cell leaves every
/// cell stored at another index as it was.
pub proof fn lemma_value_read_after_write<T>(
    values: Seq<Option<T>>,
    width: i32,
    loc: Int2D,
    other: Int2D,
    value: T,
)
    requires
        index_ok(width, loc, values.len()),
        index_ok(width, other, values.len()),
    ensures
        value_at(with_value_at(values, width, loc, value), width, loc) == Some(value),
        row_major_index(width as int, other) != row_major_index(width as int, loc) ==> value_at(
            with_value_at(values, width, loc, value),
            width,
            other,
        ) == value_at(values, width, other),
        with_value_at(values, width, loc, value).len() == values.len(),
{
}

/// `apply_to_all_values` does not depend on the `GridOption` it is given: with a
/// closure that gives one result per value, two grids with the same values end
/// with the same values, whatever options the two calls were given.
pub proof fn lemma_apply_to_all_values_ignores_option<T, F: Fn(&T) -> T>(
    before: Seq<Option<T>>,
    after_a: Seq<Option<T>>,
    after_b: Seq<Option<T>>,
    closure: F,
)
    requires
        applied_to_all(before, after_a, closure),
        applied_to_all(before, after_b, closure),
        forall|v: T, r1: T, r2: T|
            #[trigger] closure.ensures((&v,), r1) && #[trigger] closure.ensures((&v,), r2) ==> r1
                == r2,
    ensures
        after_a == after_b,
{
    assert forall|i: int| 0 <= i < before.len() implies after_a[i] == after_b[i] by {
        match before[i] {
            None => {},
            Some(v) => {
                assert(closure.ensures((&v,), after_a[i].unwrap()));
                assert(closure.ensures((&v,), after_b[i].unwrap()));
            },
        }
    }
    assert(after_a =~= after_b);
}

/// On a grid fresh from `new`, every cell reads as empty.
pub proof fn lemma_fresh_grid_reads_empty<T>(values: Seq<Option<T>>, width: i32, loc: Int2D)
    requires
        forall|i: int| 0 <= i < values.len() ==> values[i] is None,
        index_ok(width, loc, values.len()),
    ensures
        value_at(values, width, loc) is None,
{
}

} // verus!
