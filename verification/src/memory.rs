//! Flat memory: a fixed-capacity, zero-initialized byte buffer with
//! bounds-checked random access. Writes that would overrun the buffer are
//! refused whole, never truncated.

use vstd::prelude::*;

verus! {

/// Error returned by an out-of-bounds access to `Memory`.
#[derive(Debug)]
pub enum Error {
    OutOfBounds,
}

/// A global memory store with random read and write access.
pub struct Memory {
    buffer: Vec<u8>,
}

impl View for Memory {
    type V = Seq<u8>;

    closed spec fn view(&self) -> Seq<u8> {
        self.buffer@
    }
}

impl Memory {
    /// Create a new memory buffer given a size in bytes; every byte starts
    /// at zero.
    pub fn new(size: usize) -> (m: Memory)
        ensures
            m@.len() == size,
            forall|i: int| 0 <= i < size ==> m@[i] == 0u8,
    {
        let mut buffer: Vec<u8> = Vec::new();
        let mut i: usize = 0;
        while i < size
            invariant
                i <= size,
                buffer@.len() == i,
                forall|j: int| 0 <= j < i ==> buffer@[j] == 0u8,
            decreases size - i,
        {
            buffer.push(0u8);
            i = i + 1;
        }
        Memory { buffer }
    }

    /// The buffer's capacity in bytes.
    pub fn capacity(&self) -> (n: usize)
        ensures
            n == self@.len(),
    {
        self.buffer.len()
    }

    /// Write bytes to the buffer at a given position.
    ///
    /// Succeeds only if `position + data.len()` is strictly within capacity;
    /// a write that would overrun is refused whole and leaves the buffer
    /// unchanged.
    pub fn write(&mut self, data: &[u8], position: usize) -> (r: Result<(), Error>)
        ensures
            position + data@.len() < old(self)@.len() ==> {
                &&& r is Ok
                &&& final(self)@ == old(self)@.take(position as int) + data@ + old(self)@.skip(
                    position + data@.len(),
                )
            },
            position + data@.len() >= old(self)@.len() ==> {
                &&& r matches Err(Error::OutOfBounds)
                &&& final(self)@ == old(self)@
            },
    {
        if data.len() < self.buffer.len() && position < self.buffer.len() - data.len() {
            let cap: usize = self.buffer.len();
            let mut i: usize = 0;
            while i < data.len()
                invariant
                    i <= data@.len(),
                    position + data@.len() < cap,
                    cap == old(self)@.len(),
                    position + data@.len() < old(self)@.len(),
                    self.buffer@.len() == old(self)@.len(),
                    forall|j: int|
                        0 <= j < self.buffer@.len() ==> self.buffer@[j] == (if position <= j
                            < position + i {
                            data@[j - position]
                        } else {
                            old(self)@[j]
                        }),
                decreases data@.len() - i,
            {
                self.buffer.set(position + i, data[i]);
                i = i + 1;
            }
            proof {
                assert(self.buffer@ =~= old(self)@.take(position as int) + data@ + old(
                    self,
                )@.skip(position + data@.len()));
            }
            Ok(())
        } else {
            Err(Error::OutOfBounds)
        }
    }

    /// Read the byte range `[start, end)`.
    ///
    /// Succeeds only if `start <= end` and both bounds lie within capacity;
    /// out-of-bounds ranges are refused with `OutOfBounds`.
    pub fn read(&self, start: usize, end: usize) -> (r: Result<Vec<u8>, Error>)
        ensures
            start <= end <= self@.len() ==> {
                &&& r matches Ok(v) && v@ == self@.subrange(start as int, end as int)
            },
            !(start <= end <= self@.len()) ==> r matches Err(Error::OutOfBounds),
    {
        if start <= end && end <= self.buffer.len() {
            let mut out: Vec<u8> = Vec::new();
            let mut i: usize = start;
            while i < end
                invariant
                    start <= i <= end <= self.buffer@.len(),
                    out@ == self.buffer@.subrange(start as int, i as int),
                decreases end - i,
            {
                out.push(self.buffer[i]);
                proof {
                    assert(out@ =~= self.buffer@.subrange(start as int, i + 1));
                }
                i = i + 1;
            }
            Ok(out)
        } else {
            Err(Error::OutOfBounds)
        }
    }
}

} // verus!
