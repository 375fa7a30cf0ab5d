//! The 1 MiB byte-addressed memory of the simulated machine.
use vstd::prelude::*;

verus! {

/// Size of the memory in bytes.
pub const MEMORY_SIZE: usize = 1048576;

/// A zero-initialised memory of `MEMORY_SIZE` bytes.
pub struct Memory {
    data: Vec<u8>,
}

impl View for Memory {
    type V = Seq<u8>;

    closed spec fn view(&self) -> Seq<u8> {
        self.data@
    }
}

impl Memory {
    pub open spec fn wf(&self) -> bool {
        self@.len() == MEMORY_SIZE
    }

    /// All bytes zero.
    pub fn new() -> (r: Memory)
        ensures
            r.wf(),
            forall|i: int| 0 <= i < MEMORY_SIZE ==> r@[i] == 0,
    {
        let mut data: Vec<u8> = Vec::new();
        let mut i: usize = 0;
        while i < MEMORY_SIZE
            invariant
                i <= MEMORY_SIZE,
                data@.len() == i,
                forall|j: int| 0 <= j < i ==> data@[j] == 0,
            decreases MEMORY_SIZE - i,
        {
            data.push(0);
            i = i + 1;
        }
        Memory { data }
    }

    /// Copies `data` into memory starting at `offset`.
    pub fn copy_from_slice(&mut self, data: &[u8], offset: usize)
        requires
            old(self).wf(),
            offset <= MEMORY_SIZE,
            data@.len() <= MEMORY_SIZE - offset,
        ensures
            final(self).wf(),
            final(self)@ == old(self)@.subrange(0, offset as int) + data@ + old(self)@.subrange(
                offset + data@.len(),
                MEMORY_SIZE as int,
            ),
    {
        let mut i: usize = 0;
        while i < data.len()
            invariant
                i <= data@.len(),
                offset + data@.len() <= MEMORY_SIZE,
                self.data@.len() == MEMORY_SIZE,
                forall|j: int| 0 <= j < offset ==> self.data@[j] == old(self)@[j],
                forall|j: int| 0 <= j < i ==> self.data@[offset + j] == data@[j],
                forall|j: int|
                    offset + i <= j < MEMORY_SIZE ==> self.data@[j] == old(self)@[j],
            decreases data@.len() - i,
        {
            self.data.set(offset + i, data[i]);
            i = i + 1;
        }
        proof {
            assert(self@ =~= old(self)@.subrange(0, offset as int) + data@ + old(self)@.subrange(
                offset + data@.len(),
                MEMORY_SIZE as int,
            ));
        }
    }

    /// The bytes from `offset` up to `limit`.
    pub fn iter(&self, offset: usize, limit: usize) -> (r: &[u8])
        requires
            self.wf(),
            offset <= limit <= MEMORY_SIZE,
        ensures
            r@ == self@.subrange(offset as int, limit as int),
    {
        vstd::slice::slice_subrange(self.data.as_slice(), offset, limit)
    }

    /// The byte at `offset`, `None` past the end.
    pub fn get(&self, offset: usize) -> (r: Option<u8>)
        ensures
            r == if offset < self@.len() {
                Some(self@[offset as int])
            } else {
                None::<u8>
            },
    {
        if offset < self.data.len() {
            Some(self.data[offset])
        } else {
            None
        }
    }

    /// Writes one byte.
    pub fn set(&mut self, value: u8, offset: usize)
        requires
            old(self).wf(),
            offset < MEMORY_SIZE,
        ensures
            final(self)@ == old(self)@.update(offset as int, value),
    {
        self.data.set(offset, value);
    }
}

} // verus!
