//! The mathematical model of the buddy heap: block geometry, well-formed free
//! lists, and the set of free addresses they describe.

use vstd::prelude::*;
use vstd::arithmetic::power2::pow2;

verus! {

/// The addresses `b .. b + s`.
pub open spec fn range_set(b: int, s: int) -> Set<int> {
    Set::new(|x: int| b <= x < b + s)
}

/// The shape of a heap: its base address, the binary logarithm of its smallest
/// block, and the number of block orders (free lists).
pub struct Geometry {
    pub base: int,
    pub min_log2: nat,
    pub levels: nat,
}

impl Geometry {
    /// Size of a block of order `o`.
    pub open spec fn osize(self, o: int) -> int {
        pow2((self.min_log2 + o) as nat) as int
    }

    /// Size of the whole heap: one block of the largest order.
    pub open spec fn size(self) -> int {
        self.osize(self.levels - 1)
    }

    /// `b` may start a block of order `o`: aligned to the block size relative
    /// to the heap base, and within the heap.
    pub open spec fn block_ok(self, o: int, b: int) -> bool {
        &&& 0 <= o < self.levels
        &&& self.base <= b
        &&& (b - self.base) % self.osize(o) == 0
        &&& b - self.base + self.osize(o) <= self.size()
    }

    /// The heap has at least one order and lies within the address space.
    pub open spec fn valid(self) -> bool {
        &&& self.levels >= 1
        &&& self.base >= 0
        &&& self.base + self.size() <= usize::MAX + 1
    }

    /// Free lists are well formed: one list per order, no block twice, every
    /// block in the heap and aligned to its order, and no two blocks overlapping.
    pub open spec fn lists_wf(self, l: Seq<Seq<usize>>) -> bool {
        &&& self.valid()
        &&& l.len() == self.levels
        &&& forall|o: int| 0 <= o < l.len() ==> (#[trigger] l[o]).no_duplicates()
        &&& forall|o: int, b: usize|
            0 <= o < l.len() && #[trigger] l[o].contains(b) ==> self.block_ok(o, b as int)
        &&& forall|o1: int, b1: usize, o2: int, b2: usize|
            0 <= o1 < l.len() && 0 <= o2 < l.len() && #[trigger] l[o1].contains(b1)
                && #[trigger] l[o2].contains(b2) && (o1 != o2 || b1 != b2) ==> (b1 + self.osize(o1)
                <= b2 || b2 + self.osize(o2) <= b1)
    }

    /// Address `x` lies in some free block.
    pub open spec fn in_free(self, l: Seq<Seq<usize>>, x: int) -> bool {
        exists|o: int, b: usize|
            0 <= o < l.len() && #[trigger] l[o].contains(b) && b <= x < b + self.osize(o)
    }

    /// All free addresses.
    pub open spec fn free_set(self, l: Seq<Seq<usize>>) -> Set<int> {
        Set::new(|x: int| self.in_free(l, x))
    }

    /// No address of `b .. b + s` is free.
    pub open spec fn range_unused(self, l: Seq<Seq<usize>>, b: int, s: int) -> bool {
        forall|x: int| b <= x < b + s ==> !#[trigger] self.in_free(l, x)
    }
}

pub proof fn lemma_push_contains(s: Seq<usize>, v: usize, x: usize)
    ensures
        s.push(v).contains(x) <==> (s.contains(x) || x == v),
{
    if s.contains(x) {
        let i = choose|i: int| 0 <= i < s.len() && s[i] == x;
        assert(s.push(v)[i] == x);
    }
    if x == v {
        assert(s.push(v)[s.len() as int] == v);
    }
    if s.push(v).contains(x) {
        let i = choose|i: int| 0 <= i < s.len() + 1 && s.push(v)[i] == x;
        if i < s.len() {
            assert(s[i] == x);
        }
    }
}

pub proof fn lemma_remove_contains(s: Seq<usize>, i: int, x: usize)
    requires
        0 <= i < s.len(),
        s.no_duplicates(),
    ensures
        s.remove(i).contains(x) <==> (s.contains(x) && x != s[i]),
        s.remove(i).no_duplicates(),
{
    s.remove_ensures(i);
    let r = s.remove(i);
    if r.contains(x) {
        let j = choose|j: int| 0 <= j < r.len() && r[j] == x;
        if j < i {
            assert(s[j] == x);
        } else {
            assert(s[j + 1] == x);
        }
    }
    if s.contains(x) && x != s[i] {
        let j = choose|j: int| 0 <= j < s.len() && s[j] == x;
        if j < i {
            assert(r[j] == x);
        } else {
            assert(j != i);
            assert(r[j - 1] == x);
        }
    }
    assert forall|a: int, b: int| 0 <= a < r.len() && 0 <= b < r.len() && a != b implies r[a]
        != r[b] by {
        let aa = if a < i { a } else { a + 1 };
        let bb = if b < i { b } else { b + 1 };
        assert(r[a] == s[aa]);
        assert(r[b] == s[bb]);
    }
}

/// A block of a valid heap lies within the address space.
pub proof fn lemma_block_bounded(g: Geometry, o: int, b: int)
    requires
        g.valid(),
        g.block_ok(o, b),
    ensures
        0 <= b <= usize::MAX,
        b + g.osize(o) <= usize::MAX + 1,
        g.osize(o) > 0,
{
    vstd::arithmetic::power2::lemma_pow2_pos((g.min_log2 + o) as nat);
}

/// Adding a free, in-heap, unused block keeps the lists well formed and adds its addresses.
pub proof fn lemma_lists_push(g: Geometry, l: Seq<Seq<usize>>, o: int, b: usize)
    requires
        g.lists_wf(l),
        g.block_ok(o, b as int),
        g.range_unused(l, b as int, g.osize(o)),
    ensures
        g.lists_wf(l.update(o, l[o].push(b))),
        g.free_set(l.update(o, l[o].push(b))) == g.free_set(l).union(range_set(b as int, g.osize(o))),
{
    let l2 = l.update(o, l[o].push(b));
    vstd::arithmetic::power2::lemma_pow2_pos((g.min_log2 + o) as nat);
    assert(!l[o].contains(b)) by {
        if l[o].contains(b) {
            assert(g.in_free(l, b as int));
        }
    }
    assert forall|o2: int, b2: usize| 0 <= o2 < l2.len() implies #[trigger] l2[o2].contains(b2)
        <==> (l[o2].contains(b2) || (o2 == o && b2 == b)) by {
        if o2 == o {
            lemma_push_contains(l[o], b, b2);
        }
    }
    assert forall|o2: int| 0 <= o2 < l2.len() implies (#[trigger] l2[o2]).no_duplicates() by {
        if o2 == o {
            assert forall|i: int, j: int| 0 <= i < l2[o].len() && 0 <= j < l2[o].len() && i != j
                implies l2[o][i] != l2[o][j] by {
                if i < l[o].len() && j < l[o].len() {
                } else if i < l[o].len() {
                    assert(l[o].contains(l2[o][i]));
                } else if j < l[o].len() {
                    assert(l[o].contains(l2[o][j]));
                }
            }
        }
    }
    assert forall|o1: int, b1: usize, o2: int, b2: usize|
        0 <= o1 < l2.len() && 0 <= o2 < l2.len() && #[trigger] l2[o1].contains(b1)
            && #[trigger] l2[o2].contains(b2) && (o1 != o2 || b1 != b2) implies (b1 + g.osize(o1)
        <= b2 || b2 + g.osize(o2) <= b1) by {
        vstd::arithmetic::power2::lemma_pow2_pos((g.min_log2 + o1) as nat);
        vstd::arithmetic::power2::lemma_pow2_pos((g.min_log2 + o2) as nat);
        if o1 == o && b1 == b {
            if !(b1 + g.osize(o1) <= b2 || b2 + g.osize(o2) <= b1) {
                let x = if b1 <= b2 { b2 as int } else { b1 as int };
                assert(l[o2].contains(b2));
                assert(g.in_free(l, x));
            }
        } else if o2 == o && b2 == b {
            if !(b1 + g.osize(o1) <= b2 || b2 + g.osize(o2) <= b1) {
                let x = if b1 <= b2 { b2 as int } else { b1 as int };
                assert(l[o1].contains(b1));
                assert(g.in_free(l, x));
            }
        } else {
            assert(l[o1].contains(b1));
            assert(l[o2].contains(b2));
        }
    }
    assert forall|x: int| g.in_free(l2, x) <==> (g.in_free(l, x) || (b <= x < b + g.osize(o))) by {
        if g.in_free(l2, x) {
            let (o3, b3) = choose|o3: int, b3: usize|
                0 <= o3 < l2.len() && #[trigger] l2[o3].contains(b3) && b3 <= x < b3 + g.osize(o3);
            if !(o3 == o && b3 == b) {
                assert(l[o3].contains(b3));
            }
        }
        if g.in_free(l, x) {
            let (o3, b3) = choose|o3: int, b3: usize|
                0 <= o3 < l.len() && #[trigger] l[o3].contains(b3) && b3 <= x < b3 + g.osize(o3);
            assert(l2[o3].contains(b3));
        }
        if b <= x < b + g.osize(o) {
            assert(l2[o].contains(b));
        }
    }
    assert(g.free_set(l2) =~= g.free_set(l).union(range_set(b as int, g.osize(o))));
}

/// Removing the block at index `i` of list `o` keeps the lists well formed and
/// frees exactly its addresses.
pub proof fn lemma_lists_remove(g: Geometry, l: Seq<Seq<usize>>, o: int, i: int)
    requires
        g.lists_wf(l),
        0 <= o < l.len(),
        0 <= i < l[o].len(),
    ensures
        g.lists_wf(l.update(o, l[o].remove(i))),
        g.free_set(l.update(o, l[o].remove(i))) == g.free_set(l).difference(
            range_set(l[o][i] as int, g.osize(o)),
        ),
        g.block_ok(o, l[o][i] as int),
{
    let b = l[o][i];
    let l2 = l.update(o, l[o].remove(i));
    assert(l[o].contains(b));
    assert forall|o2: int, b2: usize| 0 <= o2 < l2.len() implies #[trigger] l2[o2].contains(b2)
        <==> (l[o2].contains(b2) && !(o2 == o && b2 == b)) by {
        if o2 == o {
            lemma_remove_contains(l[o], i, b2);
        }
    }
    assert forall|o2: int| 0 <= o2 < l2.len() implies (#[trigger] l2[o2]).no_duplicates() by {
        if o2 == o {
            lemma_remove_contains(l[o], i, b);
        }
    }
    assert forall|o1: int, b1: usize, o2: int, b2: usize|
        0 <= o1 < l2.len() && 0 <= o2 < l2.len() && #[trigger] l2[o1].contains(b1)
            && #[trigger] l2[o2].contains(b2) && (o1 != o2 || b1 != b2) implies (b1 + g.osize(o1)
        <= b2 || b2 + g.osize(o2) <= b1) by {
        assert(l[o1].contains(b1));
        assert(l[o2].contains(b2));
    }
    assert forall|x: int| g.in_free(l2, x) <==> (g.in_free(l, x) && !(b <= x < b + g.osize(o))) by {
        if g.in_free(l2, x) {
            let (o3, b3) = choose|o3: int, b3: usize|
                0 <= o3 < l2.len() && #[trigger] l2[o3].contains(b3) && b3 <= x < b3 + g.osize(o3);
            assert(l[o3].contains(b3));
            assert(l[o].contains(b));
            if b <= x < b + g.osize(o) {
                assert(!(o3 == o && b3 == b));
            }
        }
        if g.in_free(l, x) && !(b <= x < b + g.osize(o)) {
            let (o3, b3) = choose|o3: int, b3: usize|
                0 <= o3 < l.len() && #[trigger] l[o3].contains(b3) && b3 <= x < b3 + g.osize(o3);
            assert(l2[o3].contains(b3));
        }
    }
    assert(g.free_set(l2) =~= g.free_set(l).difference(range_set(b as int, g.osize(o))));
}

/// Flipping the bit of an aligned offset that selects between the two halves
/// of the next larger block moves the offset to the other half.
pub proof fn lemma_xor_buddy(rel: usize, k: usize)
    requires
        k < usize::BITS,
        rel as nat % pow2(k as nat) == 0,
    ensures
        (rel as nat / pow2(k as nat)) % 2 == 0 ==> (rel ^ (1usize << k)) == rel + pow2(k as nat),
        (rel as nat / pow2(k as nat)) % 2 == 1 ==> (rel ^ (1usize << k)) == rel - pow2(k as nat),
{
    let s: usize = 1usize << k;
    crate::math::lemma_shl_pow2(k);
    vstd::bits::lemma_usize_pow2_no_overflow(k as nat);
    vstd::arithmetic::power2::lemma_pow2_pos(k as nat);
    let m: usize = (s - 1) as usize;
    vstd::bits::lemma_usize_low_bits_mask_is_mod(rel, k as nat);
    assert(vstd::bits::low_bits_mask(k as nat) == pow2(k as nat) - 1);
    assert(rel & m == 0);
    vstd::bits::lemma_usize_shr_is_div(rel, k);
    let q: usize = rel >> k;
    assert(q == rel as nat / pow2(k as nat));
    assert((q & 1) == q % 2) by (bit_vector);
    assert(((rel & m) == 0 && m == s - 1 && s == (1usize << k) && k < usize::BITS && q == (rel >> k))
        ==> (((q & 1) == 0 ==> (rel ^ s) == rel + s) && ((q & 1) == 1 ==> (rel ^ s) == rel - s)))
        by (bit_vector);
}

/// Consecutive block orders double in size.
pub proof fn lemma_osize_double(g: Geometry, o: int)
    requires
        o >= 1,
    ensures
        g.osize(o) == 2 * g.osize(o - 1),
        g.osize(o - 1) > 0,
{
    vstd::arithmetic::power2::lemma_pow2_unfold((g.min_log2 + o) as nat);
    vstd::arithmetic::power2::lemma_pow2_pos((g.min_log2 + o - 1) as nat);
}

/// Smaller block sizes divide larger ones, and the heap size is a multiple of every block size.
pub proof fn lemma_osize_divides(g: Geometry, o1: int, o2: int)
    requires
        0 <= o1 <= o2,
    ensures
        g.osize(o2) % g.osize(o1) == 0,
        g.osize(o1) <= g.osize(o2),
        g.osize(o1) > 0,
{
    crate::math::lemma_pow2_split((g.min_log2 + o1) as nat, (g.min_log2 + o2) as nat);
    vstd::arithmetic::power2::lemma_pow2_pos((g.min_log2 + o1) as nat);
}

/// `a` and `h` multiples of `m > 0`, `a < h`: then `a + m <= h`.
pub proof fn lemma_aligned_step(a: int, h: int, m: int)
    requires
        m > 0,
        a >= 0,
        a % m == 0,
        h % m == 0,
        a < h,
    ensures
        a + m <= h,
{
    let p = a / m;
    let q = h / m;
    vstd::arithmetic::div_mod::lemma_fundamental_div_mod(a, m);
    vstd::arithmetic::div_mod::lemma_fundamental_div_mod(h, m);
    assert(p < q) by (nonlinear_arith)
        requires a == m * p, h == m * q, a < h, m > 0;
    assert(m * p + m <= m * q) by (nonlinear_arith)
        requires p < q, m > 0;
}

/// A block splits into two halves of the next smaller order.
pub proof fn lemma_block_split(g: Geometry, o: int, b: int)
    requires
        g.block_ok(o, b),
        o >= 1,
    ensures
        g.block_ok(o - 1, b),
        g.block_ok(o - 1, b + g.osize(o - 1)),
        g.osize(o) == 2 * g.osize(o - 1),
{
    lemma_osize_double(g, o);
    let s = g.osize(o - 1);
    let rel = b - g.base;
    vstd::arithmetic::div_mod::lemma_fundamental_div_mod(rel, 2 * s);
    let q = rel / (2 * s);
    assert(rel == s * (2 * q)) by (nonlinear_arith)
        requires rel == (2 * s) * q + rel % (2 * s), rel % (2 * s) == 0;
    vstd::arithmetic::div_mod::lemma_mod_multiples_basic(2 * q, s);
    assert((s * (2 * q)) % s == 0) by (nonlinear_arith)
        requires (2 * q * s) % s == 0;
    assert(rel + s == s * (2 * q + 1)) by (nonlinear_arith)
        requires rel == s * (2 * q);
    vstd::arithmetic::div_mod::lemma_mod_multiples_basic(2 * q + 1, s);
    assert((s * (2 * q + 1)) % s == 0) by (nonlinear_arith)
        requires ((2 * q + 1) * s) % s == 0;
}

/// The buddy of a block of order `o`, as computed from its offset.
pub open spec fn buddy_of(g: Geometry, o: int, b: int) -> int {
    if ((b - g.base) / g.osize(o)) % 2 == 0 {
        b + g.osize(o)
    } else {
        b - g.osize(o)
    }
}

/// A block and its buddy are disjoint halves of a block of the next order,
/// which starts at the lower of the two.
pub proof fn lemma_block_merge(g: Geometry, o: int, b: int)
    requires
        g.block_ok(o, b),
        o + 1 < g.levels,
    ensures
        g.block_ok(o, buddy_of(g, o, b)),
        g.block_ok(o + 1, if b <= buddy_of(g, o, b) { b } else { buddy_of(g, o, b) }),
        b != buddy_of(g, o, b),
        range_set(b, g.osize(o)).union(range_set(buddy_of(g, o, b), g.osize(o))) == range_set(
            if b <= buddy_of(g, o, b) { b } else { buddy_of(g, o, b) },
            g.osize(o + 1),
        ),
        b + g.osize(o) <= buddy_of(g, o, b) || buddy_of(g, o, b) + g.osize(o) <= b,
{
    lemma_osize_double(g, o + 1);
    lemma_osize_divides(g, o + 1, g.levels - 1);
    let s = g.osize(o);
    let rel = b - g.base;
    let q = rel / s;
    vstd::arithmetic::div_mod::lemma_fundamental_div_mod(rel, s);
    assert(rel == s * q);
    assert(q >= 0) by (nonlinear_arith)
        requires rel == s * q, rel >= 0, s > 0;
    let bud = buddy_of(g, o, b);
    let low = if b <= bud { b } else { bud };
    if q % 2 == 0 {
        let p = q / 2;
        assert(rel == (2 * s) * p) by (nonlinear_arith)
            requires rel == s * q, q == 2 * p;
        vstd::arithmetic::div_mod::lemma_mod_multiples_basic(p, 2 * s);
        assert(rel % (2 * s) == 0) by (nonlinear_arith)
            requires rel == (2 * s) * p, (p * (2 * s)) % (2 * s) == 0;
        lemma_aligned_step(rel, g.size(), 2 * s);
        assert(bud == b + s);
        assert(low == b);
        assert(bud - g.base == s * (q + 1)) by (nonlinear_arith)
            requires rel == s * q, bud - g.base == rel + s;
        vstd::arithmetic::div_mod::lemma_mod_multiples_basic(q + 1, s);
        assert((s * (q + 1)) % s == 0) by (nonlinear_arith)
            requires ((q + 1) * s) % s == 0;
    } else {
        let p = q / 2;
        assert(q == 2 * p + 1);
        assert(rel - s == (2 * s) * p) by (nonlinear_arith)
            requires rel == s * q, q == 2 * p + 1;
        vstd::arithmetic::div_mod::lemma_mod_multiples_basic(p, 2 * s);
        assert((rel - s) % (2 * s) == 0) by (nonlinear_arith)
            requires rel - s == (2 * s) * p, (p * (2 * s)) % (2 * s) == 0;
        assert(p >= 0);
        assert(rel - s >= 0) by (nonlinear_arith)
            requires rel - s == (2 * s) * p, p >= 0, s > 0;
        assert(bud == b - s);
        assert(low == bud);
        assert(bud - g.base == s * (q - 1)) by (nonlinear_arith)
            requires rel == s * q, bud - g.base == rel - s;
        vstd::arithmetic::div_mod::lemma_mod_multiples_basic(q - 1, s);
        assert((s * (q - 1)) % s == 0) by (nonlinear_arith)
            requires ((q - 1) * s) % s == 0;
    }
    assert(range_set(b, s).union(range_set(bud, s)) =~= range_set(low, g.osize(o + 1)));
}

/// The list of the largest order holds at most one block: the whole heap.
pub proof fn lemma_top_list_small(g: Geometry, l: Seq<Seq<usize>>)
    requires
        g.lists_wf(l),
        g.levels >= 1,
    ensures
        l[g.levels - 1].len() <= 1,
{
    let t = g.levels - 1;
    if l[t].len() >= 2 {
        assert(l[t].contains(l[t][0]));
        assert(l[t].contains(l[t][1]));
        assert(l[t][0] != l[t][1]);
        lemma_osize_divides(g, t, t);
        let r0 = l[t][0] - g.base;
        let r1 = l[t][1] - g.base;
        vstd::arithmetic::div_mod::lemma_fundamental_div_mod(r0, g.size());
        vstd::arithmetic::div_mod::lemma_fundamental_div_mod(r1, g.size());
        assert(r0 == 0) by (nonlinear_arith)
            requires r0 == g.size() * (r0 / g.size()), 0 <= r0, r0 + g.size() <= g.size(), g.size() > 0;
        assert(r1 == 0) by (nonlinear_arith)
            requires r1 == g.size() * (r1 / g.size()), 0 <= r1, r1 + g.size() <= g.size(), g.size() > 0;
    }
}

/// The first order at or above `k` whose free list is not empty (`l.len()` if none).
pub open spec fn first_nonempty(l: Seq<Seq<usize>>, k: int) -> int
    decreases l.len() - k,
{
    if k < 0 || k >= l.len() {
        l.len() as int
    } else if l[k].len() > 0 {
        k
    } else {
        first_nonempty(l, k + 1)
    }
}

/// The free lists after a block `b` of order `j` is split down to order `k`:
/// the upper half of each split goes on the list of its order.
pub open spec fn split_lists(g: Geometry, l: Seq<Seq<usize>>, b: int, k: int, j: int) -> Seq<
    Seq<usize>,
> {
    Seq::new(
        l.len(),
        |o: int|
            if k <= o < j {
                l[o].push((b + g.osize(o)) as usize)
            } else {
                l[o]
            },
    )
}

/// The free lists and the block that an allocation of order `k` produces:
/// the most recently freed block of the smallest sufficient order, split down.
pub open spec fn alloc_lists(g: Geometry, l: Seq<Seq<usize>>, k: int) -> (Seq<Seq<usize>>, Option<
    usize,
>) {
    let j = first_nonempty(l, k);
    if j >= l.len() {
        (l, None)
    } else {
        let b = l[j].last();
        (split_lists(g, l.update(j, l[j].drop_last()), b as int, k, j), Some(b))
    }
}

/// The free lists after block `b` of order `o` is freed: while its buddy is
/// free, the two are merged into a block of the next order.
pub open spec fn dealloc_lists(g: Geometry, l: Seq<Seq<usize>>, b: int, o: int) -> Seq<Seq<usize>>
    decreases g.levels - o,
{
    if o < 0 || o >= g.levels || o >= l.len() {
        l
    } else if g.osize(o) >= g.size() {
        l.update(o, l[o].push(b as usize))
    } else {
        let bud = buddy_of(g, o, b);
        if l[o].contains(bud as usize) {
            dealloc_lists(
                g,
                l.update(o, l[o].remove_value(bud as usize)),
                if b <= bud { b } else { bud },
                o + 1,
            )
        } else {
            l.update(o, l[o].push(b as usize))
        }
    }
}

/// A block is also a valid block start for every smaller order.
pub proof fn lemma_block_lower(g: Geometry, o: int, k: int, b: int)
    requires
        g.block_ok(o, b),
        0 <= k <= o,
    ensures
        g.block_ok(k, b),
{
    lemma_osize_divides(g, k, o);
    let rel = b - g.base;
    vstd::arithmetic::div_mod::lemma_fundamental_div_mod(rel, g.osize(o));
    vstd::arithmetic::div_mod::lemma_fundamental_div_mod(g.osize(o), g.osize(k));
    let q = rel / g.osize(o);
    let r = g.osize(o) / g.osize(k);
    assert(rel == g.osize(k) * (r * q)) by (nonlinear_arith)
        requires rel == g.osize(o) * q, g.osize(o) == g.osize(k) * r;
    vstd::arithmetic::div_mod::lemma_mod_multiples_basic(r * q, g.osize(k));
    assert((g.osize(k) * (r * q)) % g.osize(k) == 0) by (nonlinear_arith)
        requires ((r * q) * g.osize(k)) % g.osize(k) == 0;
}

/// A free list that is empty from order `k` up to `m` does not change the first nonempty order.
pub proof fn lemma_first_nonempty_skip(l: Seq<Seq<usize>>, k: int, m: int)
    requires
        0 <= k <= m,
        forall|o: int| k <= o < m && o < l.len() ==> #[trigger] l[o].len() == 0,
    ensures
        first_nonempty(l, k) == first_nonempty(l, m),
    decreases m - k,
{
    if k < m {
        if k < l.len() {
            lemma_first_nonempty_skip(l, k + 1, m);
        } else {
            assert(first_nonempty(l, k) == l.len());
            assert(first_nonempty(l, m) == l.len());
        }
    }
}

/// `first_nonempty` finds a nonempty list at or above `k`, with empty lists between.
pub proof fn lemma_first_nonempty_props(l: Seq<Seq<usize>>, k: int)
    requires
        0 <= k,
    ensures
        first_nonempty(l, k) >= k || first_nonempty(l, k) == l.len(),
        first_nonempty(l, k) <= l.len(),
        first_nonempty(l, k) < l.len() ==> l[first_nonempty(l, k)].len() > 0,
        forall|o: int| k <= o < first_nonempty(l, k) ==> #[trigger] l[o].len() == 0,
    decreases l.len() - k,
{
    if k < l.len() && l[k].len() == 0 {
        lemma_first_nonempty_props(l, k + 1);
    }
}

/// Splitting a free, unused block `b` of order `j` down to order `k` keeps the
/// lists well formed, frees everything of it but its first `osize(k)` bytes,
/// and leaves those unused.
pub proof fn lemma_split(g: Geometry, l: Seq<Seq<usize>>, b: int, k: int, j: int)
    requires
        g.lists_wf(l),
        g.block_ok(j, b),
        g.range_unused(l, b, g.osize(j)),
        0 <= k <= j,
    ensures
        g.lists_wf(split_lists(g, l, b, k, j)),
        g.free_set(split_lists(g, l, b, k, j)) == g.free_set(l).union(
            range_set(b + g.osize(k), g.osize(j) - g.osize(k)),
        ),
        g.range_unused(split_lists(g, l, b, k, j), b, g.osize(k)),
    decreases j - k,
{
    if k == j {
        assert(split_lists(g, l, b, k, j) =~= l);
        assert(g.free_set(l).union(range_set(b + g.osize(k), 0)) =~= g.free_set(l));
    } else {
        lemma_split(g, l, b, k + 1, j);
        let prev = split_lists(g, l, b, k + 1, j);
        lemma_block_lower(g, j, k + 1, b);
        lemma_block_split(g, k + 1, b);
        lemma_osize_divides(g, k + 1, j);
        let h = (b + g.osize(k)) as usize;
        lemma_block_bounded(g, k, b + g.osize(k));
        assert(g.range_unused(prev, h as int, g.osize(k)));
        lemma_lists_push(g, prev, k, h);
        assert(prev.update(k, prev[k].push(h)) =~= split_lists(g, l, b, k, j));
        assert(g.free_set(l).union(range_set(b + g.osize(k + 1), g.osize(j) - g.osize(k + 1))).union(
            range_set(h as int, g.osize(k)),
        ) =~= g.free_set(l).union(range_set(b + g.osize(k), g.osize(j) - g.osize(k))));
        let cur = split_lists(g, l, b, k, j);
        assert forall|x: int| b <= x < b + g.osize(k) implies !#[trigger] g.in_free(cur, x) by {
            assert(!g.free_set(prev).contains(x));
            assert(!range_set(h as int, g.osize(k)).contains(x));
            assert(!g.free_set(cur).contains(x));
        }
    }
}

/// Allocating an order-`k` block from well-formed lists: when some list at or
/// above `k` is nonempty, the block comes from a free block, the lists stay
/// well formed, exactly the block's addresses stop being free, and they are unused.
pub proof fn lemma_alloc(g: Geometry, l: Seq<Seq<usize>>, k: int)
    requires
        g.lists_wf(l),
        0 <= k < g.levels,
        first_nonempty(l, k) < l.len(),
    ensures
        ({
            let (l2, r) = alloc_lists(g, l, k);
            &&& r is Some
            &&& g.block_ok(k, r->0 as int)
            &&& g.lists_wf(l2)
            &&& range_set(r->0 as int, g.osize(k)).subset_of(g.free_set(l))
            &&& g.free_set(l2) == g.free_set(l).difference(range_set(r->0 as int, g.osize(k)))
            &&& g.range_unused(l2, r->0 as int, g.osize(k))
        }),
{
    lemma_first_nonempty_props(l, k);
    let j = first_nonempty(l, k);
    let b = l[j].last();
    let i = l[j].len() - 1;
    lemma_lists_remove(g, l, j, i);
    let lp = l.update(j, l[j].remove(i));
    assert(l[j].remove(i) =~= l[j].drop_last());
    assert(lp =~= l.update(j, l[j].drop_last()));
    vstd::arithmetic::power2::lemma_pow2_pos((g.min_log2 + j) as nat);
    assert(g.range_unused(lp, b as int, g.osize(j))) by {
        assert forall|x: int| b <= x < b + g.osize(j) implies !#[trigger] g.in_free(lp, x) by {
            assert(!g.free_set(lp).contains(x));
        }
    }
    assert(range_set(b as int, g.osize(j)).subset_of(g.free_set(l))) by {
        assert(l[j].contains(b));
        assert forall|x: int| range_set(b as int, g.osize(j)).contains(x) implies g.free_set(
            l,
        ).contains(x) by {
            assert(g.in_free(l, x));
        }
    }
    lemma_split(g, lp, b as int, k, j);
    lemma_block_lower(g, j, k, b as int);
    lemma_osize_divides(g, k, j);
    let l2 = split_lists(g, lp, b as int, k, j);
    assert(g.free_set(l2) =~= g.free_set(l).difference(range_set(b as int, g.osize(k))));
}

/// One merge step of a deallocation: the free buddy of an unused block is
/// taken off its list, and the two halves form an unused block of the next
/// order that covers the same addresses.
pub proof fn lemma_merge_step(g: Geometry, l: Seq<Seq<usize>>, b: int, o: int)
    requires
        g.lists_wf(l),
        g.block_ok(o, b),
        g.range_unused(l, b, g.osize(o)),
        g.osize(o) < g.size(),
        l[o].contains(buddy_of(g, o, b) as usize),
    ensures
        ({
            let bud = buddy_of(g, o, b);
            let low = if b <= bud { b } else { bud };
            let l2 = l.update(o, l[o].remove_value(bud as usize));
            &&& g.lists_wf(l2)
            &&& g.block_ok(o + 1, low)
            &&& g.block_ok(o, bud)
            &&& g.range_unused(l2, low, g.osize(o + 1))
            &&& g.free_set(l2).union(range_set(low, g.osize(o + 1))) == g.free_set(l).union(
                range_set(b, g.osize(o)),
            )
        }),
{
    lemma_block_bounded(g, o, b);
    if o + 1 >= g.levels {
        assert(o == g.levels - 1);
        assert(false);
    }
    let bud = buddy_of(g, o, b);
    lemma_block_merge(g, o, b);
    lemma_block_bounded(g, o, bud);
    let i = l[o].index_of_first(bud as usize);
    l[o].index_of_first_ensures(bud as usize);
    let ii = i->0;
    lemma_lists_remove(g, l, o, ii);
    let l2 = l.update(o, l[o].remove_value(bud as usize));
    assert(l2 =~= l.update(o, l[o].remove(ii)));
    let low = if b <= bud { b } else { bud };
    assert(range_set(bud, g.osize(o)).subset_of(g.free_set(l))) by {
        assert forall|x: int| range_set(bud, g.osize(o)).contains(x) implies g.free_set(l).contains(
            x,
        ) by {
            assert(l[o].contains(bud as usize));
            assert(g.in_free(l, x));
        }
    }
    assert(g.range_unused(l2, low, g.osize(o + 1))) by {
        assert forall|x: int| low <= x < low + g.osize(o + 1) implies !#[trigger] g.in_free(l2, x) by {
            assert(range_set(low, g.osize(o + 1)).contains(x));
            if range_set(b, g.osize(o)).contains(x) {
                assert(!g.free_set(l).contains(x));
            }
            assert(!g.free_set(l2).contains(x));
        }
    }
    assert(g.free_set(l2).union(range_set(low, g.osize(o + 1))) =~= g.free_set(l).union(
        range_set(b, g.osize(o)),
    ));
}

/// Freeing an unused block of order `o` keeps the lists well formed and makes
/// exactly its addresses free, whatever merges happen.
pub proof fn lemma_dealloc(g: Geometry, l: Seq<Seq<usize>>, b: int, o: int)
    requires
        g.lists_wf(l),
        g.block_ok(o, b),
        g.range_unused(l, b, g.osize(o)),
    ensures
        g.lists_wf(dealloc_lists(g, l, b, o)),
        g.free_set(dealloc_lists(g, l, b, o)) == g.free_set(l).union(range_set(b, g.osize(o))),
    decreases g.levels - o,
{
    lemma_block_bounded(g, o, b);
    if g.osize(o) >= g.size() {
        lemma_lists_push(g, l, o, b as usize);
    } else {
        let bud = buddy_of(g, o, b);
        lemma_block_merge(g, o, b);
        lemma_block_bounded(g, o, bud);
        if l[o].contains(bud as usize) {
            lemma_merge_step(g, l, b, o);
            let l2 = l.update(o, l[o].remove_value(bud as usize));
            let low = if b <= bud { b } else { bud };
            lemma_dealloc(g, l2, low, o + 1);
        } else {
            lemma_lists_push(g, l, o, b as usize);
        }
    }
}

/// Allocating a block of order `k` and then freeing it again gives back the
/// same set of free addresses.
pub proof fn lemma_alloc_dealloc_roundtrip(g: Geometry, l: Seq<Seq<usize>>, k: int)
    requires
        g.lists_wf(l),
        0 <= k < g.levels,
        first_nonempty(l, k) < l.len(),
    ensures
        ({
            let (l2, r) = alloc_lists(g, l, k);
            &&& g.lists_wf(dealloc_lists(g, l2, r->0 as int, k))
            &&& g.free_set(dealloc_lists(g, l2, r->0 as int, k)) == g.free_set(l)
        }),
{
    lemma_alloc(g, l, k);
    let (l2, r) = alloc_lists(g, l, k);
    let p = r->0 as int;
    lemma_dealloc(g, l2, p, k);
    assert(g.free_set(l2).union(range_set(p, g.osize(k))) =~= g.free_set(l));
}

} // verus!
