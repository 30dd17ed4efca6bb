use std::hash::Hash;
use std::marker::PhantomData;

use vstd::prelude::*;

verus! {

/// Per-thread buffers of objects collected during a step, to be spawned or deleted
/// together in a deferred phase.
pub struct CimiteryBufferExp7<O: Eq + Hash + Clone + Copy + Send, M: Sized> {
    pub buffers: Vec<Vec<O>>,
    pub phantom: PhantomData<M>,
}

impl<O: Eq + Hash + Clone + Copy + Send, M: Sized> CimiteryBufferExp7<O, M> {
    /// One empty buffer for each of `num_threads` threads.
    pub fn new(num_threads: usize) -> (buffer: CimiteryBufferExp7<O, M>)
        ensures
            buffer.buffers.len() == num_threads,
            forall|i: int|
                0 <= i < buffer.buffers.len() ==> (#[trigger] buffer.buffers[i])@.len() == 0,
    {
        let mut buffers: Vec<Vec<O>> = Vec::new();
        let mut i: usize = 0;
        while i < num_threads
            invariant
                i <= num_threads,
                buffers.len() == i,
                forall|k: int| 0 <= k < buffers.len() ==> (#[trigger] buffers[k])@.len() == 0,
            decreases num_threads - i,
        {
            buffers.push(Vec::new());
            i = i + 1;
        }
        CimiteryBufferExp7 { buffers, phantom: PhantomData }
    }

    /// Records `object` at the end of the buffer of the first thread; every other
    /// buffer stays as it was.
    pub fn push(&mut self, object: O)
        requires
            old(self).buffers.len() > 0,
        ensures
            final(self).buffers.len() == old(self).buffers.len(),
            final(self).buffers@[0]@ == old(self).buffers@[0]@.push(object),
            forall|i: int|
                0 < i < old(self).buffers.len() ==> (#[trigger] final(self).buffers@[i])@ == old(
                    self,
                ).buffers@[i]@,
    {
        let id_thread: usize = 0;
        self.buffers[id_thread].push(object);
    }
}

} // verus!
