//! Kernel handles and the storages that manage their lifetime.

use vstd::prelude::*;
use core::marker::PhantomData;
use std::sync::Arc;

verus! {

/// A raw kernel handle.
#[derive(Clone, Copy, PartialEq, Eq, Debug, Structural)]
pub struct RawHandle(pub u32);

/// A handle that is owned: whoever holds it is responsible for closing it.
#[derive(Debug)]
pub struct OwnedHandle {
    handle: RawHandle,
}

impl View for OwnedHandle {
    type V = u32;

    closed spec fn view(&self) -> u32 {
        self.handle.0
    }
}

impl OwnedHandle {
    /// Take ownership of a raw handle.
    pub fn new(handle: RawHandle) -> (r: Self)
        ensures
            r@ == handle.0,
    {
        Self { handle }
    }

    /// Borrow the handle.
    pub fn as_ref(&self) -> (r: RefHandle<'_>)
        ensures
            r@ == self@,
    {
        RefHandle { handle: self.handle, phantom: PhantomData }
    }

    /// Give up ownership, returning the raw handle.
    pub fn leak(self) -> (r: RawHandle)
        ensures
            r.0 == self@,
    {
        self.handle
    }
}

/// A borrowed handle, valid for the lifetime `'a`.
#[derive(Clone, Copy, Debug)]
pub struct RefHandle<'a> {
    handle: RawHandle,
    phantom: PhantomData<&'a ()>,
}

impl<'a> View for RefHandle<'a> {
    type V = u32;

    closed spec fn view(&self) -> u32 {
        self.handle.0
    }
}

impl<'a> RefHandle<'a> {
    /// Create a borrowed handle from a raw one; the caller vouches for its lifetime.
    pub fn new(handle: RawHandle) -> (r: Self)
        ensures
            r@ == handle.0,
    {
        RefHandle { handle, phantom: PhantomData }
    }

    /// The raw handle.
    pub fn inner(&self) -> (r: RawHandle)
        ensures
            r.0 == self@,
    {
        self.handle
    }
}

/// A reference-counted handle: its clones share one handle, which stays
/// open while any of them is alive.
#[derive(Clone, Debug)]
pub struct SharedHandle {
    handle: RawHandle,
    count: Arc<()>,
}

impl View for SharedHandle {
    type V = u32;

    closed spec fn view(&self) -> u32 {
        self.handle.0
    }
}

impl SharedHandle {
    /// Share a raw handle; the first reference to it.
    pub fn new(handle: RawHandle) -> (r: Self)
        ensures
            r@ == handle.0,
    {
        SharedHandle { handle, count: Arc::new(()) }
    }

    /// The raw handle.
    pub fn inner(&self) -> (r: RawHandle)
        ensures
            r.0 == self@,
    {
        self.handle
    }
}

/// The number of one bits at the top of `mask`, looking down from bit
/// `31 - n` once the `n` bits above it are ones.
pub open spec fn ones_from_top(mask: u32, n: nat) -> nat
    decreases 32 - n,
{
    if n >= 32 {
        32
    } else if (mask >> ((31 - n) as u32)) & 1 == 1 {
        ones_from_top(mask, n + 1)
    } else {
        n
    }
}

/// The number of leading one bits of `mask`, from the most significant bit.
pub open spec fn leading_ones(mask: u32) -> nat {
    ones_from_top(mask, 0)
}

/// The handle of a pool that a request takes, given the mask of the handles
/// in use (bit `i` for handle `i`): the index that the count of leading ones
/// of the mask gives, with the mask that marks it in use; when that count
/// reaches the pool's size, the last handle, which is then shared, and no
/// new mask.
pub fn pool_pick(mask: u32, pool_size: usize) -> (r: (usize, Option<u32>))
    requires
        0 < pool_size <= 32,
    ensures
        leading_ones(mask) >= pool_size ==> r.0 == pool_size - 1 && r.1 is None,
        leading_ones(mask) < pool_size ==> r.0 == leading_ones(mask) && r.1 == Some(mask | (1u32 << (r.0 as u32))),
{
    let mut n: u32 = 0;
    while n < 32 && (mask >> (31 - n)) & 1 == 1
        invariant
            n <= 32,
            leading_ones(mask) == ones_from_top(mask, n as nat),
        decreases 32 - n,
    {
        n = n + 1;
    }
    let index = n as usize;
    if index >= pool_size {
        (pool_size - 1, None)
    } else {
        (index, Some(mask | (1u32 << n)))
    }
}

/// The mask once the handle at `index` is given back: its bit cleared.
pub fn pool_release(mask: u32, index: usize) -> (r: u32)
    requires
        index < 32,
    ensures
        r == mask & !(1u32 << (index as u32)),
{
    mask & !(1u32 << (index as u32))
}

/// Taking a handle of a pool marks it in use and leaves the other marks as
/// they were; giving it back marks it free and leaves the others too; and
/// giving back a handle that was free when taken restores the mask.
pub proof fn lemma_pool_marks(mask: u32, index: u32, other: u32)
    by (bit_vector)
    requires
        index < 32,
        other < 32,
        other != index,
    ensures
        ((mask | (1u32 << index)) >> index) & 1 == 1,
        ((mask | (1u32 << index)) >> other) & 1 == (mask >> other) & 1,
        ((mask & !(1u32 << index)) >> index) & 1 == 0,
        ((mask & !(1u32 << index)) >> other) & 1 == (mask >> other) & 1,
        (mask >> index) & 1 == 0 ==> (mask | (1u32 << index)) & !(1u32 << index) == mask,
{
}

} // verus!
