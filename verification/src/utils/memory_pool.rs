//! A reusable buffer for grayscale conversion, and counters for monitoring
//! how often it is reused.

use vstd::prelude::*;

verus! {

/// A reusable grayscale buffer with a tracked capacity.
pub struct BufferPool {
    grayscale_buffer: Vec<u8>,
    grayscale_capacity: usize,
}

/// The capacity a pool starts with by default: one 1920x1080 frame.
pub open spec fn default_pool_capacity() -> usize {
    2073600
}

impl BufferPool {
    /// The capacity the pool has reserved for grayscale data.
    pub closed spec fn capacity(&self) -> usize {
        self.grayscale_capacity
    }

    /// The bytes currently held in the buffer.
    pub closed spec fn contents(&self) -> Seq<u8> {
        self.grayscale_buffer@
    }

    /// An empty pool sized for one 1920x1080 frame.
    pub fn new() -> (pool: Self)
        ensures
            pool.capacity() == default_pool_capacity(),
            pool.contents() == Seq::<u8>::empty(),
    {
        let default_capacity: usize = 1920 * 1080;
        BufferPool {
            grayscale_buffer: Vec::with_capacity(default_capacity),
            grayscale_capacity: default_capacity,
        }
    }

    /// An empty pool with the given capacity.
    pub fn with_capacity(capacity: usize) -> (pool: Self)
        ensures
            pool.capacity() == capacity,
            pool.contents() == Seq::<u8>::empty(),
    {
        BufferPool { grayscale_buffer: Vec::with_capacity(capacity), grayscale_capacity: capacity }
    }

    /// A buffer of exactly `size` bytes, growing the capacity when needed.
    /// Bytes already held are kept; new ones are zero.
    pub fn get_grayscale_buffer(&mut self, size: usize) -> (buf: &mut [u8])
        ensures
            buf@.len() == size,
            forall|i: int|
                0 <= i < size ==> #[trigger] buf@[i] == if i < old(self).contents().len() {
                    old(self).contents()[i]
                } else {
                    0u8
                },
            final(self).capacity() == if size > old(self).capacity() {
                size
            } else {
                old(self).capacity()
            },
            final(self).contents() == final(buf)@,
    {
        if size > self.grayscale_capacity {
            self.grayscale_buffer.reserve(size - self.grayscale_capacity);
            self.grayscale_capacity = size;
        }
        let ghost before = self.grayscale_buffer@;
        self.grayscale_buffer.resize(size, 0u8);
        proof {
            assert forall|i: int| 0 <= i < size implies #[trigger] self.grayscale_buffer@[i] == if i
                < before.len() {
                before[i]
            } else {
                0u8
            } by {
                if i < before.len() {
                    if size > before.len() {
                        assert(self.grayscale_buffer@.subrange(0, before.len() as int)[i]
                            == self.grayscale_buffer@[i]);
                    }
                } else {
                    assert(cloned::<u8>(0u8, self.grayscale_buffer@[i]));
                }
            }
        }
        self.grayscale_buffer.as_mut_slice()
    }

    /// Grow the capacity to at least `capacity`; the contents stay.
    pub fn ensure_grayscale_capacity(&mut self, capacity: usize)
        ensures
            final(self).capacity() == if capacity > old(self).capacity() {
                capacity
            } else {
                old(self).capacity()
            },
            final(self).contents() == old(self).contents(),
    {
        if capacity > self.grayscale_capacity {
            self.grayscale_buffer.reserve(capacity - self.grayscale_capacity);
            self.grayscale_capacity = capacity;
        }
    }

    /// The current grayscale capacity.
    pub fn grayscale_capacity(&self) -> (c: usize)
        ensures
            c == self.capacity(),
    {
        self.grayscale_capacity
    }

    /// Empty the buffer, keeping the capacity.
    pub fn clear(&mut self)
        ensures
            final(self).contents() == Seq::<u8>::empty(),
            final(self).capacity() == old(self).capacity(),
    {
        self.grayscale_buffer.clear();
    }
}

impl Default for BufferPool {
    fn default() -> (pool: Self)
        ensures
            pool.capacity() == default_pool_capacity(),
            pool.contents() == Seq::<u8>::empty(),
    {
        Self::new()
    }
}

/// Counters for monitoring allocation patterns.
#[derive(Debug)]
pub struct AllocationStats {
    pub grayscale_reuses: usize,
    pub grayscale_allocations: usize,
    pub total_bytes_reused: usize,
}

impl AllocationStats {
    /// All counters at zero.
    pub fn new() -> (s: Self)
        ensures
            s.grayscale_reuses == 0,
            s.grayscale_allocations == 0,
            s.total_bytes_reused == 0,
    {
        AllocationStats { grayscale_reuses: 0, grayscale_allocations: 0, total_bytes_reused: 0 }
    }

    /// Count one reuse of `bytes` bytes.
    pub fn record_grayscale_reuse(&mut self, bytes: usize)
        requires
            old(self).grayscale_reuses < usize::MAX,
            old(self).total_bytes_reused + bytes <= usize::MAX,
        ensures
            final(self).grayscale_reuses == old(self).grayscale_reuses + 1,
            final(self).total_bytes_reused == old(self).total_bytes_reused + bytes,
            final(self).grayscale_allocations == old(self).grayscale_allocations,
    {
        self.grayscale_reuses += 1;
        self.total_bytes_reused += bytes;
    }

    /// Count one fresh allocation.
    pub fn record_grayscale_allocation(&mut self)
        requires
            old(self).grayscale_allocations < usize::MAX,
        ensures
            final(self).grayscale_allocations == old(self).grayscale_allocations + 1,
            final(self).grayscale_reuses == old(self).grayscale_reuses,
            final(self).total_bytes_reused == old(self).total_bytes_reused,
    {
        self.grayscale_allocations += 1;
    }
}

impl Default for AllocationStats {
    fn default() -> (s: Self)
        ensures
            s.grayscale_reuses == 0,
            s.grayscale_allocations == 0,
            s.total_bytes_reused == 0,
    {
        Self::new()
    }
}

} // verus!
