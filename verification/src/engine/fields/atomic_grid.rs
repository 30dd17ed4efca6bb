use std::marker::PhantomData;
use std::sync::Arc;
use std::sync::Mutex;

use vstd::prelude::*;

use crate::engine::fields::grid_index::{cell_index, index_ok, row_major_index};
use crate::engine::location::Int2D;

verus! {

#[verifier::external_type_specification]
#[verifier::external_body]
#[verifier::reject_recursive_types(T)]
pub struct ExMutex<T: ?Sized>(Mutex<T>);

/// The value that a counter lock was made with. A lock's contents can change later
/// through shared references, which Verus does not see; this names only the value
/// the lock was created around.
pub uninterp spec fn counter_made_with(lock: Mutex<u32>) -> u32;

/// Calls `std::sync::Mutex::new` on `value`: a fresh lock made with `value`. Nothing
/// is stated of what the lock holds after it is shared.
#[verifier::external_body]
fn new_counter_lock(value: u32) -> (lock: Mutex<u32>)
    ensures
        counter_made_with(lock) == value,
{
    Mutex::new(value)
}

/// Calls `Arc::clone` on `counter`: another handle to the same shared counter, which
/// Verus sees as a value equal to `counter`.
#[verifier::external_body]
fn share_counter(counter: &Arc<Mutex<u32>>) -> (shared: Arc<Mutex<u32>>)
    ensures
        shared == *counter,
{
    Arc::clone(counter)
}

/// A dense grid of shared counters, one per cell, that threads update under a lock.
pub struct AtomicGrid2D<M: Sized> {
    pub values: Vec<Arc<Mutex<u32>>>,
    pub width: i32,
    pub height: i32,
    pub phantom: PhantomData<M>,
}

impl<M: Sized> AtomicGrid2D<M> {
    /// A grid of `height * width` counters (none when that product is negative), each
    /// a lock made with `default_value`.
    pub fn new(default_value: u32, width: i32, height: i32) -> (grid: AtomicGrid2D<M>)
        requires
            i32::MIN <= height * width <= i32::MAX,
        ensures
            grid.values.len() == if height * width > 0 {
                height * width
            } else {
                0
            },
            grid.width == width,
            grid.height == height,
            forall|i: int|
                0 <= i < grid.values.len() ==> counter_made_with(*#[trigger] grid.values@[i])
                    == default_value,
    {
        let mut grid = AtomicGrid2D {
            values: Vec::<Arc<Mutex<u32>>>::new(),
            width: width,
            height: height,
            phantom: PhantomData,
        };
        let cells = height * width;
        let mut i: i32 = 0;
        while i < cells
            invariant
                0 <= i,
                i <= cells || i == 0,
                grid.values.len() == i,
                grid.width == width,
                grid.height == height,
                forall|k: int|
                    0 <= k < grid.values.len() ==> counter_made_with(*#[trigger] grid.values@[k])
                        == default_value,
            decreases cells - i,
        {
            grid.values.push(Arc::new(new_counter_lock(default_value)));
            i = i + 1;
        }
        grid
    }

    /// Another handle to the shared counter of the cell at `loc`.
    pub fn get_atomic_counter(&self, loc: &Int2D) -> (counter: Arc<Mutex<u32>>)
        requires
            index_ok(self.width, *loc, self.values.len() as nat),
        ensures
            counter == self.values@[row_major_index(self.width as int, *loc)],
    {
        share_counter(&self.values[self.compute_index(loc)])
    }

    fn compute_index(&self, loc: &Int2D) -> (r: usize)
        requires
            index_ok(self.width, *loc, self.values.len() as nat),
        ensures
            r == row_major_index(self.width as int, *loc),
    {
        match cell_index(self.width, loc, self.values.len()) {
            Some(index) => index,
            None => vstd::pervasive::unreached(),
        }
    }
}

} // verus!
