//! Powers of two and the bit masks that index rings of such sizes.
use vstd::prelude::*;
use vstd::arithmetic::power2::{is_pow2, is_pow2_equiv, lemma2_to64, lemma2_to64_rest, pow2};

verus! {

/// `p` is the smallest power of two that is at least `n`.
pub open spec fn is_next_power_of_two(n: int, p: int) -> bool {
    &&& is_pow2(p)
    &&& n <= p
    &&& (p == 1 || p / 2 < n)
}

/// The largest `n` whose next power of two still fits in a `usize`.
pub open spec fn max_rounded_size() -> int {
    usize::MAX / 2 + 1
}

proof fn lemma_double_is_pow2(p: int)
    requires
        is_pow2(p),
    ensures
        is_pow2(p + p),
{
    reveal(is_pow2);
    assert((p + p) / 2 == p);
}

proof fn lemma_double_keeps_single_bit(p: usize, q: usize)
    requires
        1 <= p,
        q == p + p,
        p & ((p - 1) as usize) == 0,
    ensures
        q & ((q - 1) as usize) == 0,
{
    assert(q & ((q - 1) as usize) == 0) by (bit_vector)
        requires
            1 <= p,
            q == p + p,
            p & ((p - 1) as usize) == 0,
    ;
}

/// Of two powers of two, a smaller one is at most half the larger one.
proof fn lemma_smaller_pow2_at_most_half(a: int, b: int)
    requires
        is_pow2(a),
        is_pow2(b),
        a < b,
    ensures
        a + a <= b,
    decreases a,
{
    reveal(is_pow2);
    if a != 1 {
        lemma_smaller_pow2_at_most_half(a / 2, b / 2);
    }
}

/// `max_rounded_size()` is itself a power of two.
proof fn lemma_max_rounded_size_is_pow2()
    ensures
        is_pow2(max_rounded_size()),
{
    lemma2_to64();
    lemma2_to64_rest();
    vstd::arithmetic::power::lemma_pow_positive(2, 31);
    vstd::arithmetic::power::lemma_pow_positive(2, 63);
    if usize::MAX == 0xffff_ffff {
        assert(pow2(31) == max_rounded_size());
        assert(vstd::arithmetic::power::pow(2, 31) == max_rounded_size());
    } else {
        assert(pow2(63) == max_rounded_size());
        assert(vstd::arithmetic::power::pow(2, 63) == max_rounded_size());
    }
    is_pow2_equiv(max_rounded_size());
}

/// The smallest power of two that is at least `n` (1 for `n == 0`), together
/// with the fact, in bit form, that it has a single bit set.
pub fn next_power_of_two(n: usize) -> (p: usize)
    requires
        n <= max_rounded_size(),
    ensures
        is_next_power_of_two(n as int, p as int),
        p >= 1,
        p >= n,
        p == 1 || p < 2 * n,
        p <= max_rounded_size(),
        p & ((p - 1) as usize) == 0,
{
    let mut p: usize = 1;
    proof {
        reveal(is_pow2);
        assert(1usize & 0usize == 0) by (bit_vector);
    }
    while p < n
        invariant
            n <= max_rounded_size(),
            1 <= p,
            is_pow2(p as int),
            p == 1 || p / 2 < n,
            p <= max_rounded_size(),
            p & ((p - 1) as usize) == 0,
        decreases usize::MAX - p,
    {
        proof {
            lemma_max_rounded_size_is_pow2();
            lemma_smaller_pow2_at_most_half(p as int, max_rounded_size());
        }
        let q = p + p;
        proof {
            lemma_double_is_pow2(p as int);
            lemma_double_keeps_single_bit(p, q);
        }
        p = q;
    }
    p
}

/// The next power of two of `n >= 1` holds at least `n` and less than `2 * n`.
pub proof fn lemma_next_power_of_two_bounds(n: int, p: int)
    requires
        n >= 1,
        is_next_power_of_two(n, p),
    ensures
        n <= p < 2 * n,
{
    if p != 1 {
        reveal(is_pow2);
    }
}

/// With `mask + 1` a power of two, stepping an index in `0..=mask` forward by
/// one and masking wraps it to 0 after `mask`.
pub proof fn lemma_mask_step(pos: usize, mask: usize, size: usize)
    requires
        size == mask + 1,
        mask & size == 0,
        pos <= mask,
    ensures
        ((pos + 1) as usize) & mask == if pos == mask {
            0
        } else {
            pos + 1
        },
{
    assert(((pos + 1) as usize) & mask == if pos == mask {
        0
    } else {
        pos + 1
    }) by (bit_vector)
        requires
            size == mask + 1,
            mask & size == 0,
            pos <= mask,
    ;
}

/// With `mask + 1` a power of two, going back `back` steps from an index in
/// `0..=mask` with a wrapping subtraction and masking lands on the index
/// `back` steps earlier around the ring.
pub proof fn lemma_mask_step_back(pos: usize, back: usize, mask: usize, size: usize)
    requires
        size == mask + 1,
        mask & size == 0,
        pos <= mask,
        1 <= back <= mask,
    ensures
        pos.wrapping_sub(back) & mask == if pos >= back {
            pos - back
        } else {
            pos + size - back
        },
{
    let x = pos.wrapping_sub(back);
    if pos >= back {
        assert(x == pos - back);
        assert(x & mask == x) by (bit_vector)
            requires
                size == mask + 1,
                mask & size == 0,
                x <= mask,
        ;
    } else {
        assert(x == pos - back + usize::MAX + 1);
        if usize::MAX == 0xffff_ffff {
            assert(x & mask == pos + size - back) by (bit_vector)
                requires
                    size == mask + 1,
                    mask & size == 0,
                    pos < back,
                    back <= mask,
                    x == pos - back + 0x1_0000_0000,
                    mask < 0x1_0000_0000,
            ;
        } else {
            assert(usize::MAX == 0xffff_ffff_ffff_ffff);
            assert(x & mask == pos + size - back) by (bit_vector)
                requires
                    size == mask + 1,
                    mask & size == 0,
                    pos < back,
                    back <= mask,
                    x == pos - back + 0x1_0000_0000_0000_0000,
            ;
        }
    }
}

} // verus!
