//! Powers of two and binary logarithms, as used by the heap allocator.

use vstd::prelude::*;
use vstd::arithmetic::power2::{
    pow2, lemma_pow2_pos, lemma_pow2_unfold, lemma_pow2_adds, lemma_pow2_strictly_increases,
};
use vstd::bits::{lemma_usize_shl_is_mul, lemma_usize_pow2_no_overflow};

verus! {

/// `n` is a power of two.
pub open spec fn is_power_of_two(n: int) -> bool {
    exists|k: nat| #[trigger] pow2(k) == n
}

/// The binary logarithm of `n`, rounded down (0 for 0 and 1).
pub open spec fn floor_log2(n: nat) -> nat
    decreases n,
{
    if n <= 1 {
        0
    } else {
        1 + floor_log2(n / 2)
    }
}

/// The smallest `k` with `2^k >= n`.
pub open spec fn ceil_log2(n: nat) -> nat
    decreases n,
{
    if n <= 1 {
        0
    } else {
        1 + ceil_log2(((n + 1) / 2) as nat)
    }
}

pub proof fn lemma_pow2_ge_1(k: nat)
    ensures
        pow2(k) >= 1,
{
    lemma_pow2_pos(k);
}

/// `2^j` for `j <= k` divides `2^k`, with quotient `2^(k-j)`.
pub proof fn lemma_pow2_split(j: nat, k: nat)
    requires
        j <= k,
    ensures
        pow2(k) == pow2(j) * pow2((k - j) as nat),
        pow2(k) % pow2(j) == 0,
        pow2(j) <= pow2(k),
{
    lemma_pow2_adds(j, (k - j) as nat);
    lemma_pow2_pos(j);
    lemma_pow2_pos((k - j) as nat);
    vstd::arithmetic::div_mod::lemma_mod_multiples_basic(pow2((k - j) as nat) as int, pow2(j) as int);
    assert(pow2((k - j) as nat) * pow2(j) == pow2(j) * pow2((k - j) as nat)) by (nonlinear_arith);
    assert(pow2(j) <= pow2(j) * pow2((k - j) as nat)) by (nonlinear_arith)
        requires pow2((k - j) as nat) >= 1;
}

/// A power of two is odd only for exponent 0.
pub proof fn lemma_pow2_even(k: nat)
    requires
        k > 0,
    ensures
        pow2(k) % 2 == 0,
        pow2(k) >= 2,
{
    lemma_pow2_unfold(k);
    lemma_pow2_pos((k - 1) as nat);
}

/// `floor_log2` inverts `pow2`.
pub proof fn lemma_floor_log2_pow2(k: nat)
    ensures
        floor_log2(pow2(k)) == k,
    decreases k,
{
    if k == 0 {
        vstd::arithmetic::power2::lemma2_to64();
    } else {
        lemma_pow2_unfold(k);
        lemma_pow2_pos((k - 1) as nat);
        lemma_floor_log2_pow2((k - 1) as nat);
        assert(pow2(k) / 2 == pow2((k - 1) as nat));
    }
}

/// `ceil_log2(n)` is characterized by `2^(k-1) < n <= 2^k`.
pub proof fn lemma_ceil_log2_unique(n: nat, k: nat)
    requires
        n >= 1,
        pow2(k) >= n,
        k == 0 || pow2((k - 1) as nat) < n,
    ensures
        ceil_log2(n) == k,
    decreases k,
{
    if k == 0 {
        vstd::arithmetic::power2::lemma2_to64();
    } else {
        lemma_pow2_unfold(k);
        lemma_pow2_ge_1((k - 1) as nat);
        let m = ((n + 1) / 2) as nat;
        assert(n >= 2);
        assert(pow2((k - 1) as nat) >= m);
        if k - 1 > 0 {
            lemma_pow2_unfold((k - 1) as nat);
            assert(pow2((k - 2) as nat) < m);
        }
        lemma_ceil_log2_unique(m, (k - 1) as nat);
    }
}

/// `2^ceil_log2(n)` is at least `n`, and it is the least such power.
pub proof fn lemma_ceil_log2_bounds(n: nat)
    requires
        n >= 1,
    ensures
        pow2(ceil_log2(n)) >= n,
        ceil_log2(n) == 0 || pow2((ceil_log2(n) - 1) as nat) < n,
    decreases n,
{
    if n <= 1 {
        vstd::arithmetic::power2::lemma2_to64();
    } else {
        let m = ((n + 1) / 2) as nat;
        lemma_ceil_log2_bounds(m);
        let c = ceil_log2(m);
        lemma_pow2_unfold(c + 1);
        assert(ceil_log2(n) == c + 1);
        assert(pow2((c + 1) as nat) == 2 * pow2(c));
        if c == 0 {
            vstd::arithmetic::power2::lemma2_to64();
        } else {
            lemma_pow2_unfold(c);
            assert(pow2((c - 1) as nat) < m);
            assert(pow2(c) < n);
        }
    }
}

/// Any power of two that is at least `n` is at least `2^ceil_log2(n)`.
pub proof fn lemma_ceil_log2_least(n: nat, k: nat)
    requires
        n >= 1,
        pow2(k) >= n,
    ensures
        ceil_log2(n) <= k,
{
    lemma_ceil_log2_bounds(n);
    let c = ceil_log2(n);
    if c > k {
        if c - 1 > k {
            lemma_pow2_strictly_increases(k, (c - 1) as nat);
        }
    }
}

/// A number below `2^(k+1)` has a rounded-down logarithm of at most `k`.
pub proof fn lemma_floor_log2_bound(x: nat, k: nat)
    requires
        x < pow2(k + 1),
    ensures
        floor_log2(x) <= k,
    decreases x,
{
    if x > 1 {
        lemma_pow2_unfold(k + 1);
        if k == 0 {
            vstd::arithmetic::power2::lemma2_to64();
        } else {
            lemma_floor_log2_bound(x / 2, (k - 1) as nat);
        }
    }
}

/// Every `usize` has a rounded-down logarithm below 64.
pub proof fn lemma_floor_log2_usize(x: usize)
    ensures
        floor_log2(x as nat) <= 63,
{
    vstd::arithmetic::power2::lemma2_to64();
    assert(x as nat <= u64::MAX);
    lemma_floor_log2_bound(x as nat, 63);
}

/// Shifting one left by `k` computes `2^k`.
pub proof fn lemma_shl_pow2(k: usize)
    requires
        k < usize::BITS,
    ensures
        (1usize << k) == pow2(k as nat),
{
    lemma_usize_pow2_no_overflow(k as nat);
    lemma_usize_shl_is_mul(1, k);
}

/// `log2(n)` is the binary logarithm of `n`, rounded down; 0 for `n <= 1`.
pub fn log2(n: usize) -> (r: u8)
    ensures
        r == floor_log2(n as nat),
{
    let mut temp: usize = n;
    let mut result: u8 = 0;
    temp = temp >> 1;
    assert(temp == n / 2) by (bit_vector)
        requires temp == n >> 1;
    proof {
        lemma_floor_log2_usize(n);
    }
    while temp != 0
        invariant
            temp == 0 ==> floor_log2(n as nat) == result,
            temp != 0 ==> floor_log2(n as nat) == result + 1 + floor_log2(temp as nat),
            floor_log2(n as nat) <= 63,
        decreases temp,
    {
        proof {
            if temp >= 2 {
                assert(floor_log2(temp as nat) == 1 + floor_log2((temp / 2) as nat));
            }
        }
        result = result + 1;
        let t = temp;
        temp = t >> 1;
        assert(temp == t / 2) by (bit_vector)
            requires temp == t >> 1;
    }
    result
}


/// Whether `n` is a power of two.
pub fn is_power_of_two_usize(n: usize) -> (r: bool)
    ensures
        r == is_power_of_two(n as int),
{
    is_power_of_two_u64(n as u64)
}

/// Whether `n` is a power of two.
pub fn is_power_of_two_u64(n: u64) -> (r: bool)
    ensures
        r == is_power_of_two(n as int),
{
    if n == 0 {
        proof {
            assert forall|k: nat| #[trigger] pow2(k) != 0 by {
                lemma_pow2_pos(k);
            }
        }
        return false;
    }
    let mut m: u64 = n;
    let ghost mut k: nat = 0;
    proof {
        vstd::arithmetic::power2::lemma2_to64();
    }
    while m % 2 == 0 && m > 1
        invariant
            m >= 1,
            n == m * pow2(k),
        decreases m,
    {
        proof {
            lemma_pow2_unfold(k + 1);
            assert(m == 2 * (m / 2));
            assert(n == (m / 2) * (2 * pow2(k))) by (nonlinear_arith)
                requires n == m * pow2(k), m == 2 * (m / 2);
        }
        m = m / 2;
        proof {
            k = k + 1;
        }
    }
    if m == 1 {
        assert(pow2(k) == n);
        true
    } else {
        proof {
            assert(m % 2 == 1 && m >= 3);
            assert forall|j: nat| #[trigger] pow2(j) != n by {
                lemma_pow2_pos(k);
                if pow2(j) == n {
                    if j <= k {
                        lemma_pow2_split(j, k);
                        assert(m * pow2(k) > pow2(k)) by (nonlinear_arith)
                            requires m >= 3, pow2(k) > 0;
                    } else {
                        lemma_pow2_split(k, j);
                        lemma_pow2_even((j - k) as nat);
                        let q = pow2((j - k) as nat);
                        assert(m == q) by (nonlinear_arith)
                            requires m * pow2(k) == pow2(k) * q, pow2(k) > 0;
                    }
                }
            }
        }
        false
    }
}

/// The smallest power of two that is at least `n`.
pub fn next_power_of_two(n: usize, Ghost(e): Ghost<nat>) -> (r: usize)
    requires
        n >= 1,
        pow2(e) >= n,
        e < usize::BITS,
    ensures
        r == pow2(ceil_log2(n as nat)),
        ceil_log2(n as nat) <= e,
{
    let mut p: usize = 1;
    let ghost mut k: nat = 0;
    proof {
        vstd::arithmetic::power2::lemma2_to64();
        lemma_usize_pow2_no_overflow(e);
    }
    while p < n
        invariant
            p == pow2(k),
            k <= e,
            k == 0 || pow2((k - 1) as nat) < n,
            pow2(e) >= n,
            pow2(e) < usize::MAX,
        decreases e - k,
    {
        proof {
            if k >= e {
                if k > e {
                    lemma_pow2_strictly_increases(e, k);
                }
            }
            lemma_pow2_unfold(k + 1);
            assert(k + 1 <= e);
            if k + 1 < e {
                lemma_pow2_strictly_increases(k + 1, e);
            }
        }
        p = p * 2;
        proof {
            k = k + 1;
        }
    }
    proof {
        lemma_ceil_log2_unique(n as nat, k);
    }
    p
}

} // verus!
