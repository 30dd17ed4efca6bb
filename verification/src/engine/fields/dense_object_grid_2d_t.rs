use std::hash::Hash;
use std::marker::PhantomData;

use vstd::laws_eq::obeys_concrete_eq;
use vstd::prelude::*;

use crate::engine::fields::grid_index::{cell_index, index_ok, row_major_index};
use crate::engine::location::Int2D;

verus! {

/// `bag` with every occurrence of `object` taken out, the rest in order.
pub open spec fn without<O>(bag: Seq<O>, object: O) -> Seq<O> {
    bag.filter(other_than(object))
}

/// Holds of every object but `object`.
pub open spec fn other_than<O>(object: O) -> spec_fn(O) -> bool {
    |o: O| o != object
}

/// The contents of each bag of a bag grid, in storage order.
pub open spec fn bag_contents<O>(bags: Seq<Vec<O>>) -> Seq<Seq<O>> {
    bags.map_values(|bag: Vec<O>| bag@)
}

/// A copy of `bag` without the occurrences of `object`, the rest in order.
fn retain_others<O: Eq + Clone + Copy>(bag: &Vec<O>, object: O) -> (kept: Vec<O>)
    requires
        obeys_concrete_eq::<O>(),
    ensures
        kept@ == without(bag@, object),
{
    proof {
        reveal(obeys_concrete_eq);
    }
    let mut kept: Vec<O> = Vec::new();
    let n = bag.len();
    let mut k: usize = 0;
    while k < n
        invariant
            n == bag.len(),
            k <= n,
            obeys_concrete_eq::<O>(),
            kept@ == without(bag@.take(k as int), object),
        decreases n - k,
    {
        proof {
            reveal(obeys_concrete_eq);
            reveal_with_fuel(Seq::<_>::filter, 1);
        }
        let elem = bag[k];
        let ghost prefix = bag@.take(k + 1);
        assert(prefix.drop_last() == bag@.take(k as int));
        let keep = elem != object;
        assert(without(prefix, object) == if keep {
            without(bag@.take(k as int), object).push(elem)
        } else {
            without(bag@.take(k as int), object)
        });
        if keep {
            kept.push(elem);
        }
        k = k + 1;
    }
    assert(bag@.take(n as int) == bag@);
    kept
}

/// Appends the objects of `bag`, in order, to `buffer`.
fn copy_into<O: Copy>(bag: &Vec<O>, buffer: &mut Vec<O>)
    ensures
        final(buffer)@ == old(buffer)@ + bag@,
{
    let n = bag.len();
    let mut k: usize = 0;
    while k < n
        invariant
            n == bag.len(),
            k <= n,
            buffer@ == old(buffer)@ + bag@.take(k as int),
        decreases n - k,
    {
        buffer.push(bag[k]);
        k = k + 1;
        assert(buffer@ == old(buffer)@ + bag@.take(k as int));
    }
    assert(bag@.take(n as int) == bag@);
}

/// A dense grid where each cell holds a bag of objects.
pub struct DenseBagGrid2D<O: Eq + Hash + Clone + Copy, M: Sized> {
    pub bags: Vec<Vec<O>>,
    pub width: i32,
    pub height: i32,
    pub phantom: PhantomData<M>,
}

impl<O: Eq + Hash + Clone + Copy, M: Sized> DenseBagGrid2D<O, M> {
    /// The contents of the grid's bags, in storage order.
    pub open spec fn contents(&self) -> Seq<Seq<O>> {
        bag_contents(self.bags@)
    }

    /// The contents of the bag at `loc`.
    pub open spec fn bag_at(&self, loc: Int2D) -> Seq<O> {
        self.contents()[row_major_index(self.width as int, loc)]
    }

    /// `loc` names one of the grid's bags.
    pub open spec fn valid_loc(&self, loc: Int2D) -> bool {
        index_ok(self.width, loc, self.bags.len() as nat)
    }

    /// A grid of `width * height` empty bags.
    pub fn new(width: i32, height: i32) -> (grid: DenseBagGrid2D<O, M>)
        requires
            0 <= width * height <= i32::MAX,
        ensures
            grid.bags.len() == width * height,
            forall|i: int| 0 <= i < grid.bags.len() ==> (#[trigger] grid.bags[i])@.len() == 0,
            grid.width == width,
            grid.height == height,
    {
        let cells = (width * height) as usize;
        let mut bags: Vec<Vec<O>> = Vec::new();
        let mut i: usize = 0;
        while i < cells
            invariant
                i <= cells,
                bags.len() == i,
                forall|k: int| 0 <= k < bags.len() ==> (#[trigger] bags[k])@.len() == 0,
            decreases cells - i,
        {
            bags.push(Vec::new());
            i = i + 1;
        }
        DenseBagGrid2D { bags, width, height, phantom: PhantomData }
    }

    /// Places `object` in the bag at `loc`, taking out any copy of it the bag already
    /// held, so that it occurs there once, last.
    pub fn set_object_location(&mut self, object: O, loc: &Int2D)
        requires
            old(self).valid_loc(*loc),
            obeys_concrete_eq::<O>(),
        ensures
            final(self).width == old(self).width,
            final(self).height == old(self).height,
            final(self).bags.len() == old(self).bags.len(),
            final(self).contents() == old(self).contents().update(
                row_major_index(old(self).width as int, *loc),
                without(old(self).bag_at(*loc), object).push(object),
            ),
    {
        let index = self.compute_index(loc);
        let mut bag = retain_others(&self.bags[index], object);
        bag.push(object);
        self.bags.set(index, bag);
    }

    /// Places `object` in the bag at `loc` without looking for earlier copies of it.
    pub fn set_object(&mut self, object: O, loc: &Int2D)
        requires
            old(self).valid_loc(*loc),
        ensures
            final(self).width == old(self).width,
            final(self).height == old(self).height,
            final(self).bags.len() == old(self).bags.len(),
            final(self).contents() == old(self).contents().update(
                row_major_index(old(self).width as int, *loc),
                old(self).bag_at(*loc).push(object),
            ),
    {
        let index = self.compute_index(loc);
        self.bags[index].push(object);
    }

    /// Empties every bag.
    pub fn clear(&mut self)
        ensures
            final(self).width == old(self).width,
            final(self).height == old(self).height,
            final(self).bags.len() == old(self).bags.len(),
            forall|i: int| 0 <= i < final(self).bags.len() ==> (#[trigger] final(self).bags[i])@.len() == 0,
    {
        let n = self.bags.len();
        let mut i: usize = 0;
        while i < n
            invariant
                n == self.bags.len(),
                n == old(self).bags.len(),
                self.width == old(self).width,
                self.height == old(self).height,
                i <= n,
                forall|k: int| 0 <= k < i ==> (#[trigger] self.bags[k])@.len() == 0,
            decreases n - i,
        {
            self.bags[i].clear();
            i = i + 1;
        }
    }

    /// A copy of the bag at `loc`; `None` when that bag is empty.
    pub fn get_objects(&self, loc: &Int2D) -> (r: Option<Vec<O>>)
        requires
            self.valid_loc(*loc),
        ensures
            match r {
                None => self.bag_at(*loc).len() == 0,
                Some(objects) => self.bag_at(*loc).len() > 0 && objects@ == self.bag_at(*loc),
            },
    {
        let index = self.compute_index(loc);
        if self.bags[index].len() == 0 {
            None
        } else {
            let mut cloned_bag: Vec<O> = Vec::new();
            copy_into(&self.bags[index], &mut cloned_bag);
            Some(cloned_bag)
        }
    }

    /// Appends the objects of the bag at `loc`, in order, to `buffer`.
    pub fn get_object_already_allocation(&self, loc: &Int2D, buffer: &mut Vec<O>)
        requires
            self.valid_loc(*loc),
        ensures
            final(buffer)@ == old(buffer)@ + self.bag_at(*loc),
    {
        let index = self.compute_index(loc);
        copy_into(&self.bags[index], buffer);
    }

    /// The bag at `loc`, to be changed in place.
    pub fn get_ref_mut_bag(&mut self, loc: &Int2D) -> (bag: &mut Vec<O>)
        requires
            old(self).valid_loc(*loc),
        ensures
            bag@ == old(self).bag_at(*loc),
            final(self).width == old(self).width,
            final(self).height == old(self).height,
            final(self).bags.len() == old(self).bags.len(),
            final(self).contents() == old(self).contents().update(
                row_major_index(old(self).width as int, *loc),
                final(bag)@,
            ),
    {
        let index = self.compute_index(loc);
        &mut self.bags[index]
    }

    /// The bag at `loc`.
    pub fn get_ref_bag(&self, loc: &Int2D) -> (bag: &Vec<O>)
        requires
            self.valid_loc(*loc),
        ensures
            bag@ == self.bag_at(*loc),
    {
        let index = self.compute_index(loc);
        &self.bags[index]
    }

    /// Takes every copy of `object` out of the bag at `loc`.
    pub fn remove_object_location(&mut self, object: O, loc: &Int2D)
        requires
            old(self).valid_loc(*loc),
            obeys_concrete_eq::<O>(),
        ensures
            final(self).width == old(self).width,
            final(self).height == old(self).height,
            final(self).bags.len() == old(self).bags.len(),
            final(self).contents() == old(self).contents().update(
                row_major_index(old(self).width as int, *loc),
                without(old(self).bag_at(*loc), object),
            ),
    {
        let index = self.compute_index(loc);
        if self.bags[index].len() != 0 {
            let bag = retain_others(&self.bags[index], object);
            self.bags.set(index, bag);
        } else {
            proof {
                reveal_with_fuel(Seq::<_>::filter, 1);
            }
            assert(self.contents() == old(self).contents().update(
                row_major_index(old(self).width as int, *loc),
                without(old(self).bag_at(*loc), object),
            ));
        }
    }

    /// Takes the object at position `index` out of the bag at `loc`; an empty bag is
    /// left as it is.
    pub fn remove_object_with_index(&mut self, loc: &Int2D, index: usize)
        requires
            old(self).valid_loc(*loc),
            old(self).bag_at(*loc).len() == 0 || index < old(self).bag_at(*loc).len(),
        ensures
            final(self).width == old(self).width,
            final(self).height == old(self).height,
            final(self).bags.len() == old(self).bags.len(),
            final(self).contents() == old(self).contents().update(
                row_major_index(old(self).width as int, *loc),
                if old(self).bag_at(*loc).len() == 0 {
                    old(self).bag_at(*loc)
                } else {
                    old(self).bag_at(*loc).remove(index as int)
                },
            ),
    {
        let index_bag = self.compute_index(loc);
        if self.bags[index_bag].len() != 0 {
            self.bags[index_bag].remove(index);
        } else {
            assert(self.contents() == old(self).contents());
        }
    }

    fn compute_index(&self, loc: &Int2D) -> (r: usize)
        requires
            self.valid_loc(*loc),
        ensures
            r == row_major_index(self.width as int, *loc),
    {
        match cell_index(self.width, loc, self.bags.len()) {
            Some(index) => index,
            None => vstd::pervasive::unreached(),
        }
    }
}

/// Taking `object` out of a bag that ends with `x` takes it out of the rest, and keeps
/// `x` unless it is `object`.
proof fn lemma_without_push<O>(bag: Seq<O>, x: O, object: O)
    ensures
        without(bag.push(x), object) == if x != object {
            without(bag, object).push(x)
        } else {
            without(bag, object)
        },
{
    reveal_with_fuel(Seq::<_>::filter, 1);
    assert(bag.push(x).drop_last() == bag);
}

/// A bag with `object` taken out no longer holds it, and holds every other object
/// of the bag.
pub proof fn lemma_without_removes<O>(bag: Seq<O>, object: O)
    ensures
        !without(bag, object).contains(object),
        forall|x: O| x != object ==> (bag.contains(x) <==> without(bag, object).contains(x)),
        without(bag, object).len() <= bag.len(),
{
    let kept = without(bag, object);
    bag.lemma_filter_len(other_than(object));
    if kept.contains(object) {
        let k = choose|k: int| 0 <= k < kept.len() && kept[k] == object;
        bag.lemma_filter_pred(other_than(object), k);
    }
    assert forall|x: O| x != object implies (bag.contains(x) <==> kept.contains(x)) by {
        if bag.contains(x) {
            let k = choose|k: int| 0 <= k < bag.len() && bag[k] == x;
            bag.lemma_filter_contains(other_than(object), k);
        }
        if kept.contains(x) {
            bag.lemma_filter_contains_rev(other_than(object), x);
        }
    }
}

/// Taking an object out twice is taking it out once.
pub proof fn lemma_without_idempotent<O>(bag: Seq<O>, object: O)
    ensures
        without(without(bag, object), object) == without(bag, object),
    decreases bag.len(),
{
    if bag.len() > 0 {
        let rest = bag.drop_last();
        assert(rest.push(bag.last()) == bag);
        lemma_without_idempotent(rest, object);
        lemma_without_push(rest, bag.last(), object);
        if bag.last() != object {
            lemma_without_push(without(rest, object), bag.last(), object);
        }
    } else {
        reveal_with_fuel(Seq::<_>::filter, 1);
    }
}

/// Taking out an object that a bag does not hold leaves the bag as it is.
pub proof fn lemma_without_absent<O>(bag: Seq<O>, object: O)
    requires
        !bag.contains(object),
    ensures
        without(bag, object) == bag,
    decreases bag.len(),
{
    if bag.len() > 0 {
        let rest = bag.drop_last();
        assert(rest.push(bag.last()) == bag);
        assert(bag[bag.len() - 1] == bag.last());
        assert forall|x: O| rest.contains(x) implies bag.contains(x) by {
            let k = choose|k: int| 0 <= k < rest.len() && rest[k] == x;
            assert(bag[k] == x);
        }
        lemma_without_absent(rest, object);
        lemma_without_push(rest, bag.last(), object);
    } else {
        reveal_with_fuel(Seq::<_>::filter, 1);
    }
}

/// Placing with `set_object` an object that the bag does not hold, then taking it
/// out with `remove_object_location`, gives the bag back as it was.
pub proof fn lemma_set_object_then_remove<O>(bag: Seq<O>, object: O)
    requires
        !bag.contains(object),
    ensures
        without(bag.push(object), object) == bag,
{
    lemma_without_push(bag, object, object);
    lemma_without_absent(bag, object);
}

/// Placing an object with `set_object_location` leaves it in its bag exactly once, as
/// the bag's last object; placing it again at the same location changes nothing; and
/// `remove_object_location` afterwards gives back the bag as it was with the object
/// taken out.
pub proof fn lemma_set_object_location_laws<O>(bag: Seq<O>, object: O)
    ensures
        ({
            let placed = without(bag, object).push(object);
            &&& placed.last() == object
            &&& !placed.drop_last().contains(object)
            &&& without(placed, object).push(object) == placed
            &&& without(placed, object) == without(bag, object)
        }),
{
    let placed = without(bag, object).push(object);
    lemma_without_removes(bag, object);
    assert(placed.drop_last() == without(bag, object));
    lemma_without_push(without(bag, object), object, object);
    lemma_without_idempotent(bag, object);
}

/// After `clear`, every location of the grid names an empty bag, so `get_objects`
/// finds nothing anywhere.
pub proof fn lemma_cleared_grid_is_empty<O: Eq + Hash + Clone + Copy, M: Sized>(
    grid: DenseBagGrid2D<O, M>,
    loc: Int2D,
)
    requires
        forall|i: int| 0 <= i < grid.bags.len() ==> (#[trigger] grid.bags[i])@.len() == 0,
        grid.valid_loc(loc),
    ensures
        grid.bag_at(loc).len() == 0,
{
    assert(grid.bags[row_major_index(grid.width as int, loc)]@.len() == 0);
}

/// On a grid's bag contents: `set_object_location` of `object` at storage index
/// `index`, made twice, leaves the contents as the first call left them; every
/// other bag keeps its contents.
pub proof fn lemma_set_object_location_twice<O>(contents: Seq<Seq<O>>, index: int, object: O, other: int)
    requires
        0 <= index < contents.len(),
        0 <= other < contents.len(),
    ensures
        ({
            let once = contents.update(index, without(contents[index], object).push(object));
            &&& once.update(index, without(once[index], object).push(object)) == once
            &&& other != index ==> once[other] == contents[other]
        }),
{
    lemma_set_object_location_laws(contents[index], object);
    let once = contents.update(index, without(contents[index], object).push(object));
    assert(once.update(index, without(once[index], object).push(object)) =~= once);
}

/// On a grid's bag contents: `set_object` of an object that the bag at `index` does not
/// hold, followed by `remove_object_location` of it there, gives the contents back.
pub proof fn lemma_set_object_then_remove_location<O>(contents: Seq<Seq<O>>, index: int, object: O)
    requires
        0 <= index < contents.len(),
        !contents[index].contains(object),
    ensures
        ({
            let placed = contents.update(index, contents[index].push(object));
            placed.update(index, without(placed[index], object)) == contents
        }),
{
    lemma_set_object_then_remove(contents[index], object);
    let placed = contents.update(index, contents[index].push(object));
    assert(placed.update(index, without(placed[index], object)) =~= contents);
}

/// On a grid's bag contents: a push through the bag that `get_ref_mut_bag` hands out
/// lands in the grid itself, at the end of the bag at `index`, and no other bag
/// changes.
pub proof fn lemma_mut_bag_push_lands_in_grid<O>(contents: Seq<Seq<O>>, index: int, x: O, other: int)
    requires
        0 <= index < contents.len(),
        0 <= other < contents.len(),
    ensures
        contents.update(index, contents[index].push(x))[index] == contents[index].push(x),
        other != index ==> contents.update(index, contents[index].push(x))[other] == contents[other],
        contents.update(index, contents[index].push(x)).len() == contents.len(),
{
}

/// `get_objects` gives `None` exactly on an empty bag, and otherwise a copy of the bag
/// with its objects in order, never an empty one.
pub proof fn lemma_get_objects_result<O>(bag: Seq<O>, r: Option<Vec<O>>)
    requires
        match r {
            None => bag.len() == 0,
            Some(objects) => bag.len() > 0 && objects@ == bag,
        },
    ensures
        r is None <==> bag.len() == 0,
        r matches Some(objects) ==> objects@ == bag && objects@.len() > 0,
{
}

} // verus!
