//! A buddy allocator that hands out power-of-two blocks of a heap region.
//!
//! The heap size is a power of two and the heap starts out as one free block.
//! A request is rounded up to a power of two; the smallest free block that is
//! large enough is split in halves until it has the right size, and the upper
//! halves go on the free list of their size. A freed block is merged with its
//! buddy (the other half of the block it was split from) for as long as the
//! buddy is free.
//!
//! Blocks are identified by their addresses; the free lists hold addresses.

use vstd::prelude::*;
use vstd::arithmetic::power2::{pow2, lemma_pow2_pos, lemma_pow2_strictly_increases};
use crate::math::{
    floor_log2, ceil_log2, is_power_of_two, log2, is_power_of_two_usize, next_power_of_two,
    lemma_shl_pow2, lemma_floor_log2_pow2, lemma_ceil_log2_bounds, lemma_ceil_log2_least,
};
use crate::heap_spec::{
    Geometry, range_set, first_nonempty, split_lists, alloc_lists, dealloc_lists, buddy_of,
    lemma_top_list_small, lemma_lists_remove, lemma_lists_push, lemma_block_merge,
    lemma_block_bounded, lemma_xor_buddy, lemma_first_nonempty_skip, lemma_first_nonempty_props,
    lemma_alloc, lemma_dealloc, lemma_split, lemma_block_lower, lemma_block_split,
    lemma_osize_divides, lemma_merge_step,
};

verus! {

/// Alignment of the heap base; also the largest alignment a request may ask for.
pub const MIN_HEAP_ALIGN: usize = 4096;

/// Size of the header stored in a free block (one pointer).
pub const FREE_BLOCK_SIZE: usize = 8;

/// An error in the size or alignment of an allocation request.
#[derive(Clone, Copy, PartialEq, Eq, Debug, Structural)]
pub enum AllocationSizeError {
    BadAlignment,
    TooLarge,
}

/// The reason an allocation failed.
#[derive(Clone, Copy, PartialEq, Eq, Debug, Structural)]
pub enum AllocationError {
    HeapExhausted,
    InvalidSize(AllocationSizeError),
}

/// An error in the creation of a heap.
#[derive(Clone, Copy, PartialEq, Eq, Debug, Structural)]
pub enum HeapError {
    BadBaseAlignment,
    BadSizeAlignment,
    BadHeapSize,
    MinBlockTooSmall,
}

/// The block size a request needs: the size raised to the alignment and to
/// the minimum block size, rounded up to a power of two, if it fits the heap.
pub open spec fn alloc_size_spec(size: int, align: int, min_block: int, heap_size: int) -> Result<
    int,
    AllocationSizeError,
> {
    if !is_power_of_two(align) {
        Err(AllocationSizeError::BadAlignment)
    } else if align > MIN_HEAP_ALIGN {
        Err(AllocationSizeError::BadAlignment)
    } else {
        let s1 = if align > size { align } else { size };
        let s2 = if s1 > min_block { s1 } else { min_block };
        let p = pow2(ceil_log2(s2 as nat)) as int;
        if p > heap_size {
            Err(AllocationSizeError::TooLarge)
        } else {
            Ok(p)
        }
    }
}

/// A buddy heap with `N` block orders; blocks of the largest order span the whole heap.
pub struct Heap<const N: usize> {
    heap_base: usize,
    heap_size: usize,
    free_lists: Vec<Vec<usize>>,
    min_block_size: usize,
    min_block_size_log2: u8,
}

impl<const N: usize> Heap<N> {
    /// The shape of this heap.
    pub closed spec fn geometry(&self) -> Geometry {
        Geometry { base: self.heap_base as int, min_log2: self.min_block_size_log2 as nat, levels: N as nat }
    }

    /// The free lists, one per order; the head of each list is its last element.
    pub closed spec fn lists(&self) -> Seq<Seq<usize>> {
        Seq::new(self.free_lists@.len(), |o: int| self.free_lists@[o]@)
    }

    /// The base address of the heap.
    pub closed spec fn base(&self) -> int {
        self.heap_base as int
    }

    /// The size of the heap in bytes.
    pub closed spec fn size(&self) -> int {
        self.heap_size as int
    }

    /// The smallest block size.
    pub closed spec fn min_block(&self) -> int {
        self.min_block_size as int
    }

    /// All free addresses.
    pub closed spec fn free_set(&self) -> Set<int> {
        self.geometry().free_set(self.lists())
    }

    /// The heap is consistent: sizes are powers of two that fit the address
    /// space, the base is aligned, and the free lists are well formed.
    pub closed spec fn wf(&self) -> bool {
        &&& 1 <= N
        &&& self.free_lists@.len() == N
        &&& self.min_block_size_log2 + N - 1 < usize::BITS
        &&& self.min_block_size == pow2(self.min_block_size_log2 as nat)
        &&& self.heap_size == pow2((self.min_block_size_log2 + N - 1) as nat)
        &&& self.min_block_size >= FREE_BLOCK_SIZE
        &&& self.heap_base % MIN_HEAP_ALIGN == 0
        &&& self.heap_base + self.heap_size <= usize::MAX + 1
        &&& self.geometry().lists_wf(self.lists())
    }

    /// The order of the block a request of `size` bytes aligned to `align` needs.
    pub closed spec fn alloc_order_spec(&self, size: int, align: int) -> Result<int, AllocationSizeError> {
        match alloc_size_spec(size, align, self.min_block_size as int, self.heap_size as int) {
            Ok(p) => Ok(floor_log2(p as nat) - self.min_block_size_log2),
            Err(e) => Err(e),
        }
    }

    /// The size of a block of the given order.
    fn order_size(&self, order: usize) -> (r: usize)
        requires
            self.wf(),
            order < N,
        ensures
            r == self.geometry().osize(order as int),
    {
        let k = self.min_block_size_log2 as usize + order;
        proof {
            lemma_shl_pow2(k);
        }
        1usize << k
    }

    /// The block size that a request needs, or why it cannot be served.
    fn allocation_size(&self, size: usize, align: usize) -> (r: Result<usize, AllocationSizeError>)
        requires
            self.wf(),
        ensures
            match r {
                Ok(v) => alloc_size_spec(size as int, align as int, self.min_block_size as int, self.heap_size as int) == Ok::<int, AllocationSizeError>(v as int),
                Err(e) => alloc_size_spec(size as int, align as int, self.min_block_size as int, self.heap_size as int) == Err::<int, AllocationSizeError>(e),
            },
    {
        if !is_power_of_two_usize(align) {
            return Err(AllocationSizeError::BadAlignment);
        }
        if align > MIN_HEAP_ALIGN {
            return Err(AllocationSizeError::BadAlignment);
        }
        let mut size = size;
        if align > size {
            size = align;
        }
        if size < self.min_block_size {
            size = self.min_block_size;
        }
        let ghost top: nat = (self.min_block_size_log2 + N - 1) as nat;
        proof {
            lemma_pow2_pos(self.min_block_size_log2 as nat);
        }
        if size > self.heap_size {
            proof {
                lemma_ceil_log2_bounds(size as nat);
            }
            return Err(AllocationSizeError::TooLarge);
        }
        let p = next_power_of_two(size, Ghost(top));
        proof {
            if ceil_log2(size as nat) < top {
                lemma_pow2_strictly_increases(ceil_log2(size as nat), top);
            }
        }
        Ok(p)
    }

    /// The order of the block that a request needs.
    fn allocation_order(&self, size: usize, align: usize) -> (r: Result<usize, AllocationSizeError>)
        requires
            self.wf(),
        ensures
            match r {
                Ok(o) => self.alloc_order_spec(size as int, align as int) == Ok::<int, AllocationSizeError>(o as int)
                    && o < N
                    && alloc_size_spec(size as int, align as int, self.min_block_size as int, self.heap_size as int)
                        == Ok::<int, AllocationSizeError>(self.geometry().osize(o as int)),
                Err(e) => self.alloc_order_spec(size as int, align as int) == Err::<int, AllocationSizeError>(e),
            },
    {
        match self.allocation_size(size, align) {
            Ok(s) => {
                let ghost c = ceil_log2(
                    (if (if align > size { align } else { size }) > self.min_block_size {
                        (if align > size { align } else { size })
                    } else {
                        self.min_block_size
                    }) as nat,
                );
                let ghost ml = self.min_block_size_log2 as nat;
                proof {
                    lemma_floor_log2_pow2(c);
                    if c < ml {
                        lemma_pow2_strictly_increases(c, ml);
                        lemma_ceil_log2_bounds(
                            (if (if align > size { align } else { size }) > self.min_block_size {
                                (if align > size { align } else { size })
                            } else {
                                self.min_block_size
                            }) as nat,
                        );
                    }
                    if c > ml + N - 1 {
                        lemma_pow2_strictly_increases((ml + N - 1) as nat, c);
                    }
                }
                let l = log2(s);
                Ok((l - self.min_block_size_log2) as usize)
            },
            Err(e) => Err(e),
        }
    }

    /// Pop the head of the free list of the given order.
    fn free_list_pop(&mut self, order: usize) -> (r: Option<usize>)
        requires
            old(self).wf(),
            order < N,
        ensures
            final(self).wf(),
            final(self).geometry() == old(self).geometry(),
            final(self).size() == old(self).size(),
            final(self).min_block() == old(self).min_block(),
            old(self).lists()[order as int].len() == 0 ==> r is None && final(self).lists() == old(self).lists(),
            old(self).lists()[order as int].len() > 0 ==> r == Some(old(self).lists()[order as int].last())
                && final(self).lists() == old(self).lists().update(order as int, old(self).lists()[order as int].drop_last()),
    {
        let len = self.free_lists[order].len();
        if len > 0 {
            let candidate = self.free_lists[order][len - 1];
            let ghost g = self.geometry();
            let ghost l = self.lists();
            proof {
                lemma_top_list_small(g, l);
                lemma_lists_remove(g, l, order as int, len - 1);
                assert(l[order as int].remove(len - 1) =~= l[order as int].drop_last());
            }
            let ghost old_lists = self.free_lists@;
            if order != self.free_lists.len() - 1 {
                self.free_lists[order].pop();
            } else {
                self.free_lists[order].clear();
            }
            assert(self.free_lists@.len() == old_lists.len());
            assert(self.free_lists@[order as int]@ =~= l[order as int].drop_last());
            assert forall|o: int| 0 <= o < N && o != order implies self.free_lists@[o] == old_lists[o] by {}
            assert(self.lists() =~= l.update(order as int, l[order as int].drop_last()));
            Some(candidate)
        } else {
            None
        }
    }

    /// Push `block` of the given order onto its free list.
    fn free_list_insert(&mut self, order: usize, block: usize)
        requires
            old(self).wf(),
            order < N,
            old(self).geometry().block_ok(order as int, block as int),
            old(self).geometry().range_unused(old(self).lists(), block as int, old(self).geometry().osize(order as int)),
        ensures
            final(self).wf(),
            final(self).geometry() == old(self).geometry(),
            final(self).size() == old(self).size(),
            final(self).min_block() == old(self).min_block(),
            final(self).lists() == old(self).lists().update(order as int, old(self).lists()[order as int].push(block)),
    {
        let ghost g = self.geometry();
        let ghost l = self.lists();
        proof {
            lemma_lists_push(g, l, order as int, block);
        }
        let ghost old_lists = self.free_lists@;
        self.free_lists[order].push(block);
        assert forall|o: int| 0 <= o < N && o != order implies self.free_lists@[o] == old_lists[o] by {}
        assert(self.lists() =~= l.update(order as int, l[order as int].push(block)));
    }

    /// Remove `block` from the free list of the given order; whether it was there.
    fn free_list_remove(&mut self, order: usize, block: usize) -> (r: bool)
        requires
            old(self).wf(),
            order < N,
        ensures
            final(self).wf(),
            final(self).geometry() == old(self).geometry(),
            final(self).size() == old(self).size(),
            final(self).min_block() == old(self).min_block(),
            r == old(self).lists()[order as int].contains(block),
            r ==> final(self).lists() == old(self).lists().update(order as int, old(self).lists()[order as int].remove_value(block)),
            !r ==> final(self).lists() == old(self).lists(),
    {
        let ghost g = self.geometry();
        let ghost l = self.lists();
        let mut i = self.free_lists[order].len();
        while i > 0
            invariant
                self.free_lists@ == old(self).free_lists@,
                self.heap_base == old(self).heap_base,
                self.heap_size == old(self).heap_size,
                self.min_block_size == old(self).min_block_size,
                self.min_block_size_log2 == old(self).min_block_size_log2,
                self.wf(),
                self.lists() == l,
                l == old(self).lists(),
                g == self.geometry(),
                order < N,
                i <= l[order as int].len(),
                forall|j: int| i <= j < l[order as int].len() ==> l[order as int][j] != block,
            decreases i,
        {
            if self.free_lists[order][i - 1] == block {
                proof {
                    lemma_lists_remove(g, l, order as int, i - 1);
                    l[order as int].index_of_first_ensures(block);
                    let f = l[order as int].index_of_first(block);
                    assert(f == Some(i - 1));
                }
                let ghost old_lists = self.free_lists@;
                self.free_lists[order].remove(i - 1);
                assert forall|o: int| 0 <= o < N && o != order implies self.free_lists@[o] == old_lists[o] by {}
                assert(self.lists() =~= l.update(order as int, l[order as int].remove_value(block)));
                return true;
            }
            i = i - 1;
        }
        assert(!l[order as int].contains(block));
        false
    }

    /// Split `block` of order `order` down to order `order_needed`, putting the
    /// upper half of every split on the free list of its order.
    fn split_free_block(&mut self, block: usize, order: usize, order_needed: usize)
        requires
            old(self).wf(),
            order < N,
            order_needed <= order,
            old(self).geometry().block_ok(order as int, block as int),
            old(self).geometry().range_unused(old(self).lists(), block as int, old(self).geometry().osize(order as int)),
        ensures
            final(self).wf(),
            final(self).geometry() == old(self).geometry(),
            final(self).size() == old(self).size(),
            final(self).min_block() == old(self).min_block(),
            final(self).lists() == split_lists(old(self).geometry(), old(self).lists(), block as int, order_needed as int, order as int),
    {
        let ghost g = self.geometry();
        let ghost l0 = self.lists();
        let ghost j = order as int;
        let mut size_to_split = self.order_size(order);
        let mut order = order;
        proof {
            assert(split_lists(g, l0, block as int, j, j) =~= l0);
        }
        while order > order_needed
            invariant
                self.wf(),
                self.geometry() == g,
                self.size() == old(self).size(),
                self.min_block() == old(self).min_block(),
                g == old(self).geometry(),
                l0 == old(self).lists(),
                g.lists_wf(l0),
                g.block_ok(j, block as int),
                g.range_unused(l0, block as int, g.osize(j)),
                order_needed <= order <= j,
                j < N,
                size_to_split == g.osize(order as int),
                self.lists() == split_lists(g, l0, block as int, order as int, j),
            decreases order,
        {
            proof {
                lemma_split(g, l0, block as int, order as int, j);
                lemma_block_lower(g, j, order as int, block as int);
                lemma_block_split(g, order as int, block as int);
                lemma_block_bounded(g, order as int, block as int);
            }
            let sts = size_to_split;
            size_to_split = sts >> 1;
            assert(size_to_split == sts / 2) by (bit_vector)
                requires size_to_split == sts >> 1;
            order = order - 1;
            proof {
                lemma_block_bounded(g, order as int, block + g.osize(order as int));
            }
            let split = block + size_to_split;
            proof {
                let cur = self.lists();
                assert forall|x: int| split <= x < split + g.osize(order as int) implies !#[trigger] g.in_free(cur, x) by {
                    assert(block <= x < block + g.osize(order + 1));
                }
            }
            self.free_list_insert(order, split);
            proof {
                let prev = split_lists(g, l0, block as int, order + 1, j);
                assert(prev.update(order as int, prev[order as int].push(split)) =~= split_lists(g, l0, block as int, order as int, j));
            }
        }
    }

    /// The buddy of `block` of the given order, if that order has buddies.
    fn buddy(&self, order: usize, block: usize) -> (r: Option<usize>)
        requires
            self.wf(),
            order < N,
            self.geometry().block_ok(order as int, block as int),
        ensures
            self.geometry().osize(order as int) >= self.size() ==> r is None,
            self.geometry().osize(order as int) < self.size() ==> r == Some(buddy_of(self.geometry(), order as int, block as int) as usize),
    {
        let relative = block - self.heap_base;
        let k = self.min_block_size_log2 as usize + order;
        let size: usize = 1usize << k;
        proof {
            lemma_shl_pow2(k);
        }
        if size >= self.heap_size {
            None
        } else {
            proof {
                let g = self.geometry();
                lemma_xor_buddy(relative, k);
                lemma_block_merge(g, order as int, block as int);
                lemma_block_bounded(g, order as int, buddy_of(g, order as int, block as int));
                if order + 1 >= N {
                    assert(size == self.heap_size);
                }
            }
            Some(self.heap_base + (relative ^ size))
        }
    }

    /// Allocate a block large enough for `size` bytes aligned to `align`.
    ///
    /// The block is taken from the free list of the smallest sufficient order
    /// that has one (its most recently freed block) and split down to size.
    pub fn allocate(&mut self, size: usize, align: usize) -> (r: Result<usize, AllocationError>)
        requires
            old(self).wf(),
        ensures
            final(self).wf(),
            final(self).geometry() == old(self).geometry(),
            final(self).size() == old(self).size(),
            final(self).min_block() == old(self).min_block(),
            match old(self).alloc_order_spec(size as int, align as int) {
                Err(e) => r == Err::<usize, AllocationError>(AllocationError::InvalidSize(e))
                    && final(self).lists() == old(self).lists(),
                Ok(k) => {
                    let (l2, b) = alloc_lists(old(self).geometry(), old(self).lists(), k);
                    match b {
                        None => r == Err::<usize, AllocationError>(AllocationError::HeapExhausted)
                            && final(self).lists() == old(self).lists(),
                        Some(p) => r == Ok::<usize, AllocationError>(p) && final(self).lists() == l2,
                    }
                },
            },
            r matches Ok(p) ==> {
                let s = alloc_size_spec(size as int, align as int, old(self).min_block(), old(self).size())->Ok_0;
                &&& range_set(p as int, s).subset_of(old(self).free_set())
                &&& final(self).free_set() == old(self).free_set().difference(range_set(p as int, s))
                &&& p as int % align as int == 0
                &&& old(self).base() <= p && p + s <= old(self).base() + old(self).size()
                &&& final(self).geometry().block_ok(old(self).alloc_order_spec(size as int, align as int)->Ok_0, p as int)
                &&& final(self).geometry().range_unused(final(self).lists(), p as int, s)
            },
    {
        let ghost g = self.geometry();
        let ghost l = self.lists();
        match self.allocation_order(size, align) {
            Ok(order_needed) => {
                let n = self.free_lists.len();
                let mut order = order_needed;
                while order < n
                    invariant
                        self.wf(),
                        self.geometry() == g,
                        self.lists() == l,
                        self.size() == old(self).size(),
                        self.min_block() == old(self).min_block(),
                        g == old(self).geometry(),
                        l == old(self).lists(),
                        n == N,
                        l.len() == N,
                        order_needed <= order <= n,
                        forall|o: int| order_needed <= o < order ==> #[trigger] l[o].len() == 0,
                        alloc_size_spec(size as int, align as int, self.min_block_size as int, self.heap_size as int)
                            == Ok::<int, AllocationSizeError>(g.osize(order_needed as int)),
                        old(self).alloc_order_spec(size as int, align as int) == Ok::<int, AllocationSizeError>(order_needed as int),
                        order_needed < N,
                    decreases n - order,
                {
                    proof {
                        lemma_first_nonempty_skip(l, order_needed as int, order as int);
                    }
                    let popped = self.free_list_pop(order);
                    match popped {
                        Some(block) => {
                            proof {
                                let i = l[order as int].len() - 1;
                                lemma_lists_remove(g, l, order as int, i);
                                assert(l[order as int].remove(i) =~= l[order as int].drop_last());
                                let lp = self.lists();
                                assert forall|x: int| block <= x < block + g.osize(order as int) implies !#[trigger] g.in_free(lp, x) by {
                                    assert(!g.free_set(lp).contains(x));
                                }
                                lemma_alloc(g, l, order_needed as int);
                                self.lemma_aligned_block(size, align, order_needed as int, block as int);
                                lemma_block_lower(g, order as int, order_needed as int, block as int);
                            }
                            if order > order_needed {
                                self.split_free_block(block, order, order_needed);
                            } else {
                                proof {
                                    let lp = l.update(order as int, l[order as int].drop_last());
                                    assert(split_lists(g, lp, block as int, order as int, order as int) =~= lp);
                                }
                            }
                            return Ok(block);
                        },
                        None => {},
                    }
                    order = order + 1;
                }
                proof {
                    lemma_first_nonempty_skip(l, order_needed as int, order as int);
                }
                Err(AllocationError::HeapExhausted)
            },
            Err(e) => Err(AllocationError::InvalidSize(e)),
        }
    }

    /// A block of the order a request needs, placed where blocks of that order
    /// may start, is aligned to the request's alignment.
    proof fn lemma_aligned_block(&self, size: usize, align: usize, k: int, p: int)
        requires
            self.wf(),
            0 <= k < N,
            self.geometry().block_ok(k, p),
            alloc_size_spec(size as int, align as int, self.min_block_size as int, self.heap_size as int)
                == Ok::<int, AllocationSizeError>(self.geometry().osize(k)),
        ensures
            p % align as int == 0,
    {
        let g = self.geometry();
        let s1 = if align > size { align } else { size };
        let s2 = if s1 > self.min_block_size { s1 } else { self.min_block_size };
        lemma_pow2_pos(self.min_block_size_log2 as nat);
        lemma_ceil_log2_bounds(s2 as nat);
        assert(align <= g.osize(k));
        let a = choose|a: nat| #[trigger] pow2(a) == align as int;
        vstd::arithmetic::power2::lemma2_to64();
        let s = g.osize(k);
        let e = (self.min_block_size_log2 + k) as nat;
        if a > e {
            lemma_pow2_strictly_increases(e, a);
        }
        if a > 12 {
            lemma_pow2_strictly_increases(12, a);
        }
        crate::math::lemma_pow2_split(a, e);
        crate::math::lemma_pow2_split(a, 12);
        let rel = p - g.base;
        let q1 = rel / s;
        let q2 = g.base / 4096;
        let m1 = s / (align as int);
        let m2 = 4096int / (align as int);
        vstd::arithmetic::div_mod::lemma_fundamental_div_mod(rel, s);
        vstd::arithmetic::div_mod::lemma_fundamental_div_mod(g.base, 4096);
        vstd::arithmetic::div_mod::lemma_fundamental_div_mod(s, align as int);
        vstd::arithmetic::div_mod::lemma_fundamental_div_mod(4096int, align as int);
        assert(p == (align as int) * (m1 * q1 + m2 * q2)) by (nonlinear_arith)
            requires
                rel == s * q1,
                g.base == 4096 * q2,
                s == (align as int) * m1,
                4096 == (align as int) * m2,
                p == rel + g.base;
        vstd::arithmetic::div_mod::lemma_mod_multiples_basic(m1 * q1 + m2 * q2, align as int);
        assert(((align as int) * (m1 * q1 + m2 * q2)) % (align as int) == 0) by (nonlinear_arith)
            requires ((m1 * q1 + m2 * q2) * (align as int)) % (align as int) == 0;
    }

    /// Free a block that `allocate` returned for the same `size` and `align`.
    ///
    /// While the buddy of the block is free, the two are merged; the result
    /// goes on the free list of its order.
    pub fn deallocate(&mut self, ptr: usize, size: usize, align: usize)
        requires
            old(self).wf(),
            old(self).alloc_order_spec(size as int, align as int) is Ok,
            old(self).geometry().block_ok(old(self).alloc_order_spec(size as int, align as int)->Ok_0, ptr as int),
            old(self).geometry().range_unused(
                old(self).lists(),
                ptr as int,
                old(self).geometry().osize(old(self).alloc_order_spec(size as int, align as int)->Ok_0),
            ),
        ensures
            final(self).wf(),
            final(self).geometry() == old(self).geometry(),
            final(self).size() == old(self).size(),
            final(self).min_block() == old(self).min_block(),
            final(self).lists() == dealloc_lists(
                old(self).geometry(),
                old(self).lists(),
                ptr as int,
                old(self).alloc_order_spec(size as int, align as int)->Ok_0,
            ),
            final(self).free_set() == old(self).free_set().union(
                range_set(ptr as int, alloc_size_spec(size as int, align as int, old(self).min_block(), old(self).size())->Ok_0),
            ),
    {
        let ghost g = self.geometry();
        let ghost l0 = self.lists();
        let initial_order = match self.allocation_order(size, align) {
            Ok(o) => o,
            Err(_) => {
                return;
            },
        };
        proof {
            lemma_dealloc(g, l0, ptr as int, initial_order as int);
        }
        let n = self.free_lists.len();
        let mut block = ptr;
        let mut order = initial_order;
        while order < n
            invariant
                self.wf(),
                self.geometry() == g,
                self.size() == old(self).size(),
                self.min_block() == old(self).min_block(),
                g == old(self).geometry(),
                l0 == old(self).lists(),
                n == N,
                order < n,
                g.block_ok(order as int, block as int),
                g.range_unused(self.lists(), block as int, g.osize(order as int)),
                dealloc_lists(g, self.lists(), block as int, order as int) == dealloc_lists(g, l0, ptr as int, initial_order as int),
                old(self).alloc_order_spec(size as int, align as int) == Ok::<int, AllocationSizeError>(initial_order as int),
                alloc_size_spec(size as int, align as int, old(self).min_block(), old(self).size())
                    == Ok::<int, AllocationSizeError>(g.osize(initial_order as int)),
                g.free_set(dealloc_lists(g, l0, ptr as int, initial_order as int)) == g.free_set(l0).union(
                    range_set(ptr as int, g.osize(initial_order as int))),
            decreases n - order,
        {
            let b = self.buddy(order, block);
            if let Some(bud) = b {
                let ghost l = self.lists();
                if self.free_list_remove(order, bud) {
                    proof {
                        lemma_merge_step(g, l, block as int, order as int);
                        lemma_block_bounded(g, order as int, buddy_of(g, order as int, block as int));
                    }
                    block = if block <= bud { block } else { bud };
                    order = order + 1;
                    if order >= n {
                        proof {
                            assert(g.osize(order - 1) < g.size());
                            assert(false);
                        }
                        return;
                    }
                    continue;
                }
            }
            proof {
                let l = self.lists();
                assert(dealloc_lists(g, l, block as int, order as int) == l.update(order as int, l[order as int].push(block)));
            }
            self.free_list_insert(order, block);
            assert(self.lists() == dealloc_lists(g, l0, ptr as int, initial_order as int));
            assert(old(self).alloc_order_spec(size as int, align as int)->Ok_0 == initial_order);
            return;
        }
    }

    /// The free lists of a fresh heap: the whole heap is one free block of the largest order.
    pub open spec fn initial_lists(base: usize) -> Seq<Seq<usize>> {
        Seq::new(N as nat, |o: int| if o == N - 1 { seq![base] } else { Seq::<usize>::empty() })
    }

    /// The error `new` reports for a heap at `heap_base` of `heap_size` bytes, if any.
    pub open spec fn new_error(heap_base: int, heap_size: int) -> Option<HeapError> {
        let min_block_size = heap_size / pow2((N - 1) as nat) as int;
        if heap_base % MIN_HEAP_ALIGN as int != 0 {
            Some(HeapError::BadBaseAlignment)
        } else if heap_size < min_block_size {
            Some(HeapError::BadHeapSize)
        } else if min_block_size < FREE_BLOCK_SIZE {
            Some(HeapError::MinBlockTooSmall)
        } else if !is_power_of_two(heap_size) {
            Some(HeapError::BadSizeAlignment)
        } else {
            None
        }
    }

    /// Create a heap over `heap_size` bytes at `heap_base` without checking the parameters.
    ///
    /// The base must be aligned to `MIN_HEAP_ALIGN`, the size must be a power
    /// of two, and the smallest block must hold a free block header.
    pub fn new_unchecked(heap_base: usize, heap_size: usize) -> (r: Self)
        requires
            1 <= N,
            N - 1 < usize::BITS,
            heap_base as int + heap_size as int <= usize::MAX + 1,
            Self::new_error(heap_base as int, heap_size as int) is None,
        ensures
            r.wf(),
            r.base() == heap_base,
            r.size() == heap_size,
            r.min_block() == heap_size as int / pow2((N - 1) as nat) as int,
            r.lists() == Self::initial_lists(heap_base),
            r.free_set() == range_set(heap_base as int, heap_size as int),
    {
        let shift = N - 1;
        let min_block_size = heap_size >> shift;
        let ghost t: nat = choose|t: nat| #[trigger] pow2(t) == heap_size as int;
        proof {
            vstd::bits::lemma_usize_shr_is_div(heap_size, shift);
            vstd::arithmetic::power2::lemma2_to64();
            lemma_pow2_pos((N - 1) as nat);
            if t < N - 1 {
                lemma_pow2_strictly_increases(t, (N - 1) as nat);
                vstd::arithmetic::div_mod::lemma_basic_div(heap_size as int, pow2((N - 1) as nat) as int);
                assert(min_block_size == 0);
            }
            vstd::arithmetic::power2::lemma_pow2_subtracts((N - 1) as nat, t);
            lemma_floor_log2_pow2((t - (N - 1)) as nat);
            if t >= usize::BITS {
                if t > usize::BITS {
                    lemma_pow2_strictly_increases(usize::BITS as nat, t);
                }
                assert(pow2(usize::BITS as nat) == usize::MAX + 1);
            }
        }
        let mut free_lists: Vec<Vec<usize>> = Vec::new();
        let mut i: usize = 0;
        while i < N
            invariant
                i <= N,
                free_lists@.len() == i,
                forall|o: int| 0 <= o < i ==> (#[trigger] free_lists@[o])@ == Seq::<usize>::empty(),
            decreases N - i,
        {
            free_lists.push(Vec::new());
            i = i + 1;
        }
        free_lists[N - 1].push(heap_base);
        let min_block_size_log2 = log2(min_block_size);
        let r = Heap { heap_base, heap_size, free_lists, min_block_size, min_block_size_log2 };
        proof {
            let g = r.geometry();
            let l = r.lists();
            assert(l =~= Self::initial_lists(heap_base));
            assert(g.osize(N - 1) == heap_size);
            assert(l[N - 1][0] == heap_base);
            assert(l[N - 1].contains(heap_base));
            assert forall|o: int, b: usize| 0 <= o < l.len() && #[trigger] l[o].contains(b) implies o == N - 1 && b == heap_base by {
                if o != N - 1 {
                    assert(l[o].len() == 0);
                } else {
                    assert(l[o].len() == 1);
                }
            }
            assert(heap_size > 0);
            vstd::arithmetic::div_mod::lemma_mod_self_0(heap_size as int);
            vstd::arithmetic::div_mod::lemma_small_mod(0nat, heap_size as nat);
            assert((heap_base as int - heap_base as int) % (heap_size as int) == 0);
            assert(g.block_ok(N - 1, heap_base as int));
            assert(g.lists_wf(l));
            assert forall|x: int| g.in_free(l, x) <==> range_set(heap_base as int, heap_size as int).contains(x) by {
                if range_set(heap_base as int, heap_size as int).contains(x) {
                    assert(l[N - 1].contains(heap_base));
                }
            }
            assert(g.free_set(l) =~= range_set(heap_base as int, heap_size as int));
        }
        r
    }

    /// Create a heap over `heap_size` bytes at `heap_base`, checking the parameters.
    pub fn new(heap_base: usize, heap_size: usize) -> (r: Result<Self, HeapError>)
        requires
            1 <= N,
            N - 1 < usize::BITS,
            heap_base as int + heap_size as int <= usize::MAX + 1,
        ensures
            match Self::new_error(heap_base as int, heap_size as int) {
                Some(e) => r == Err::<Self, HeapError>(e),
                None => r matches Ok(h) && h.wf() && h.base() == heap_base && h.size() == heap_size
                    && h.lists() == Self::initial_lists(heap_base)
                    && h.free_set() == range_set(heap_base as int, heap_size as int),
            },
    {
        let shift = N - 1;
        let min_block_size = heap_size >> shift;
        proof {
            vstd::bits::lemma_usize_shr_is_div(heap_size, shift);
        }
        let masked = heap_base & (MIN_HEAP_ALIGN - 1);
        assert(masked == heap_base % 4096) by (bit_vector)
            requires masked == heap_base & 4095usize;
        if masked != 0 {
            return Err(HeapError::BadBaseAlignment);
        }
        if heap_size < min_block_size {
            return Err(HeapError::BadHeapSize);
        }
        if min_block_size < FREE_BLOCK_SIZE {
            return Err(HeapError::MinBlockTooSmall);
        }
        if !is_power_of_two_usize(heap_size) {
            return Err(HeapError::BadSizeAlignment);
        }
        Ok(Self::new_unchecked(heap_base, heap_size))
    }
}

} // verus!
