//! Powers of two.

use vstd::prelude::*;
use vstd::arithmetic::power2::{pow2, lemma_pow2_unfold, lemma2_to64};

verus! {

/// Whether `n` is a power of two.
pub open spec fn is_power_of_two(n: u32) -> bool {
    exists|k: nat| k < 32 && n == #[trigger] pow2(k)
}

/// Whether `n` is a power of two.
pub fn power_of_two(n: u32) -> (r: bool)
    ensures
        r == is_power_of_two(n),
{
    let mut p: u64 = 1;
    let mut k: u32 = 0;
    proof {
        lemma2_to64();
    }
    while k < 32
        invariant
            k <= 32,
            p == pow2(k as nat),
            p <= 0x1_0000_0000,
            forall|j: nat| j < k ==> n != #[trigger] pow2(j),
        decreases 32 - k,
    {
        if n as u64 == p {
            assert(n == pow2(k as nat));
            return true;
        }
        proof {
            lemma_pow2_unfold((k + 1) as nat);
            lemma2_to64();
            if k < 31 {
                vstd::arithmetic::power2::lemma_pow2_strictly_increases((k + 1) as nat, 32);
            }
        }
        p = p * 2;
        k = k + 1;
    }
    false
}

/// The smallest power of two that is at least `n`.
pub open spec fn pow2_ceil(n: nat) -> nat
    decreases n,
{
    if n <= 1 {
        1
    } else {
        2 * pow2_ceil(((n + 1) / 2) as nat)
    }
}

/// A number no larger than a power of two has its ceiling power of two no
/// larger either.
pub proof fn lemma_pow2_ceil_le(n: nat, k: nat)
    requires
        n <= pow2(k),
    ensures
        pow2_ceil(n) <= pow2(k),
    decreases k,
{
    vstd::arithmetic::power2::lemma_pow2_pos(k);
    if n > 1 {
        if k == 0 {
            lemma2_to64();
        } else {
            lemma_pow2_unfold(k);
            lemma_pow2_ceil_le(((n + 1) / 2) as nat, (k - 1) as nat);
        }
    }
}

/// The smallest power of two that is at least `num`.
pub fn closest_power_of_two(num: u32) -> (r: u32)
    requires
        1 <= num <= 0x8000_0000,
    ensures
        r == pow2_ceil(num as nat),
    decreases num,
{
    if num == 1 {
        1
    } else {
        let half = closest_power_of_two(num / 2 + num % 2);
        proof {
            assert((num / 2 + num % 2) as nat == ((num + 1) / 2) as nat);
            lemma2_to64();
            lemma_pow2_ceil_le(((num + 1) / 2) as nat, 30);
        }
        2 * half
    }
}

} // verus!
