//! Integer arithmetic that std offers without a specification.

use vstd::prelude::*;
use vstd::arithmetic::power2::pow2;

verus! {

/// The smallest multiple of `d` that is at least `n`.
pub open spec fn next_multiple(n: int, d: int) -> int {
    if n % d == 0 {
        n
    } else {
        n - n % d + d
    }
}

/// `next_multiple` is a multiple, and the first from `n` on.
pub proof fn lemma_next_multiple(n: int, d: int)
    requires
        n >= 0,
        d > 0,
    ensures
        next_multiple(n, d) % d == 0,
        n <= next_multiple(n, d) < n + d,
{
    vstd::arithmetic::div_mod::lemma_fundamental_div_mod(n, d);
    if n % d != 0 {
        assert(n - n % d + d == d * (n / d + 1)) by (nonlinear_arith)
            requires
                n == d * (n / d) + n % d,
        ;
        vstd::arithmetic::div_mod::lemma_mod_multiples_vanish(n / d + 1, 0, d);
        assert(d * (n / d + 1) + 0 == next_multiple(n, d));
    }
}

/// Rounds up to a multiple.
pub fn next_multiple_of(n: u32, d: u32) -> (multiple: u32)
    requires
        d != 0,
        next_multiple(n as int, d as int) <= u32::MAX,
    ensures
        multiple == next_multiple(n as int, d as int),
{
    let rem: u32 = n % d;
    if rem == 0 {
        n
    } else {
        assert(rem <= n) by (nonlinear_arith)
            requires
                rem == n % d,
                d != 0,
        ;
        n - rem + d
    }
}

/// The least `p` with `n <= 2^p`.
pub open spec fn is_log2_ceil(n: nat, p: nat) -> bool {
    n <= pow2(p) && (p > 0 ==> pow2((p - 1) as nat) < n)
}

/// The exponent of the next power of two.
pub fn log2_ceil(n: u32) -> (p: u32)
    requires
        n <= 0x8000_0000,
    ensures
        is_log2_ceil(n as nat, p as nat),
        p <= 31,
{
    let mut p: u32 = 0;
    let mut value: u64 = 1;
    proof {
        vstd::arithmetic::power2::lemma2_to64();
    }
    while value < n as u64
        invariant
            n <= 0x8000_0000,
            value == pow2(p as nat),
            p > 0 ==> pow2((p - 1) as nat) < n,
            p <= 31,
            value <= 0x8000_0000,
        decreases 31 - p,
    {
        proof {
            vstd::arithmetic::power2::lemma2_to64();
            vstd::arithmetic::power2::lemma_pow2_unfold((p + 1) as nat);
            if p == 31 {
                assert(pow2(31) == 0x8000_0000);
            } else {
                if p < 30 {
                    vstd::arithmetic::power2::lemma_pow2_strictly_increases(
                        (p + 1) as nat,
                        31,
                    );
                }
                assert(pow2((p + 1) as nat) <= 0x8000_0000);
            }
        }
        value = value * 2;
        p = p + 1;
    }
    p
}

} // verus!
