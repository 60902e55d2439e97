//! The detector handle: detection settings and an optional reusable buffer
//! pool.

use vstd::prelude::*;
use crate::utils::memory_pool::{BufferPool, default_pool_capacity};

verus! {

/// Detector with an optional buffer pool for memory reuse.
pub struct Detector {
    pool: Option<BufferPool>,
}

impl Detector {
    /// The buffer pool, if pooling is enabled.
    pub closed spec fn spec_pool(&self) -> Option<BufferPool> {
        self.pool
    }

    /// A detector without pooling.
    pub fn new() -> (d: Self)
        ensures
            d.spec_pool().is_none(),
    {
        Detector { pool: None }
    }

    /// A detector with an empty pool of the default capacity.
    pub fn with_pool() -> (d: Self)
        ensures
            d.spec_pool().is_some(),
            d.spec_pool().unwrap().capacity() == default_pool_capacity(),
            d.spec_pool().unwrap().contents() == Seq::<u8>::empty(),
    {
        Detector { pool: Some(BufferPool::new()) }
    }

    /// A detector with an empty pool of the given capacity.
    pub fn with_pool_capacity(capacity: usize) -> (d: Self)
        ensures
            d.spec_pool().is_some(),
            d.spec_pool().unwrap().capacity() == capacity,
            d.spec_pool().unwrap().contents() == Seq::<u8>::empty(),
    {
        Detector { pool: Some(BufferPool::with_capacity(capacity)) }
    }

    /// Empty the internal buffer pool, keeping its capacity.
    pub fn clear_pool(&mut self)
        ensures
            final(self).spec_pool().is_some() == old(self).spec_pool().is_some(),
            old(self).spec_pool().is_some() ==> {
                &&& final(self).spec_pool().unwrap().contents() == Seq::<u8>::empty()
                &&& final(self).spec_pool().unwrap().capacity() == old(
                    self,
                ).spec_pool().unwrap().capacity()
            },
    {
        match &mut self.pool {
            Some(pool) => pool.clear(),
            None => {},
        }
    }
}

impl Default for Detector {
    fn default() -> (d: Self)
        ensures
            d.spec_pool().is_none(),
    {
        Self::new()
    }
}

} // verus!
