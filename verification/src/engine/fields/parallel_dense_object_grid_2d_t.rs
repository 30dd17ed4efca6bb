use std::hash::Hash;
use std::marker::PhantomData;

use vstd::prelude::*;

use crate::engine::fields::dense_object_grid_2d_t::bag_contents;
use crate::engine::fields::grid_index::{cell_index, index_ok, row_major_index};
use crate::engine::location::Int2D;

verus! {

/// A dense grid where each cell holds a bag of objects, meant to be rebuilt each
/// step: bags are emptied together and filled one object at a time.
pub struct ParDenseBagGrid2D<O: Eq + Hash + Clone + Copy, M: Sized> {
    pub bags: Vec<Vec<O>>,
    pub width: i32,
    pub height: i32,
    pub phantom: PhantomData<M>,
}

impl<O: Eq + Hash + Clone + Copy, M: Sized> ParDenseBagGrid2D<O, M> {
    /// The contents of the grid's bags, in storage order.
    pub open spec fn contents(&self) -> Seq<Seq<O>> {
        bag_contents(self.bags@)
    }

    /// The contents of the bag at `loc`.
    pub open spec fn bag_at(&self, loc: Int2D) -> Seq<O> {
        self.contents()[row_major_index(self.width as int, loc)]
    }

    /// `loc` names one of the grid's bags.
    pub open spec fn valid_loc(&self, loc: Int2D) -> bool {
        index_ok(self.width, loc, self.bags.len() as nat)
    }

    /// A grid of `width * height` empty bags.
    pub fn new(width: i32, height: i32) -> (grid: ParDenseBagGrid2D<O, M>)
        requires
            0 <= width * height <= i32::MAX,
        ensures
            grid.bags.len() == width * height,
            forall|i: int| 0 <= i < grid.bags.len() ==> (#[trigger] grid.bags[i])@.len() == 0,
            grid.width == width,
            grid.height == height,
    {
        let cells = (width * height) as usize;
        let mut bags: Vec<Vec<O>> = Vec::new();
        let mut i: usize = 0;
        while i < cells
            invariant
                i <= cells,
                bags.len() == i,
                forall|k: int| 0 <= k < bags.len() ==> (#[trigger] bags[k])@.len() == 0,
            decreases cells - i,
        {
            bags.push(Vec::new());
            i = i + 1;
        }
        ParDenseBagGrid2D { width, height, bags, phantom: PhantomData }
    }

    /// The bag at `loc`, to be filled in place.
    pub fn get_write_bag(&mut self, loc: &Int2D) -> (bag: &mut Vec<O>)
        requires
            old(self).valid_loc(*loc),
        ensures
            bag@ == old(self).bag_at(*loc),
            final(self).width == old(self).width,
            final(self).height == old(self).height,
            final(self).bags.len() == old(self).bags.len(),
            final(self).contents() == old(self).contents().update(
                row_major_index(old(self).width as int, *loc),
                final(bag)@,
            ),
    {
        let index = self.compute_index(loc);
        &mut self.bags[index]
    }

    /// The bag at `loc`.
    pub fn get_read_bag(&self, loc: &Int2D) -> (bag: &Vec<O>)
        requires
            self.valid_loc(*loc),
        ensures
            bag@ == self.bag_at(*loc),
    {
        let index = self.compute_index(loc);
        &self.bags[index]
    }

    /// Adds `object` at the end of the bag at `loc`.
    pub fn push_object_location(&mut self, object: O, loc: &Int2D)
        requires
            old(self).valid_loc(*loc),
        ensures
            final(self).width == old(self).width,
            final(self).height == old(self).height,
            final(self).bags.len() == old(self).bags.len(),
            final(self).contents() == old(self).contents().update(
                row_major_index(old(self).width as int, *loc),
                old(self).bag_at(*loc).push(object),
            ),
    {
        let index = self.compute_index(loc);
        self.bags[index].push(object);
    }

    /// Empties every bag.
    pub fn clear(&mut self)
        ensures
            final(self).width == old(self).width,
            final(self).height == old(self).height,
            final(self).bags.len() == old(self).bags.len(),
            forall|i: int| 0 <= i < final(self).bags.len() ==> (#[trigger] final(self).bags[i])@.len() == 0,
    {
        let n = self.bags.len();
        let mut i: usize = 0;
        while i < n
            invariant
                n == self.bags.len(),
                n == old(self).bags.len(),
                self.width == old(self).width,
                self.height == old(self).height,
                i <= n,
                forall|k: int| 0 <= k < i ==> (#[trigger] self.bags[k])@.len() == 0,
            decreases n - i,
        {
            self.bags[i].clear();
            i = i + 1;
        }
    }

    fn compute_index(&self, loc: &Int2D) -> (r: usize)
        requires
            self.valid_loc(*loc),
        ensures
            r == row_major_index(self.width as int, *loc),
    {
        match cell_index(self.width, loc, self.bags.len()) {
            Some(index) => index,
            None => vstd::pervasive::unreached(),
        }
    }
}

/// Rebuilding a grid: after `clear` and then `push_object_location` of `object` at
/// `loc`, the bag at `loc` holds exactly `object`, and every bag stored at another
/// index is empty.
pub proof fn lemma_rebuild_after_clear<O>(cleared: Seq<Seq<O>>, index: int, object: O, other: int)
    requires
        forall|i: int| 0 <= i < cleared.len() ==> (#[trigger] cleared[i]).len() == 0,
        0 <= index < cleared.len(),
        0 <= other < cleared.len(),
    ensures
        cleared.update(index, cleared[index].push(object))[index] == seq![object],
        other != index ==> cleared.update(index, cleared[index].push(object))[other].len() == 0,
{
    assert(cleared[index].push(object) == seq![object]);
}

} // verus!
