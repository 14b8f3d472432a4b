//! Powers of two, computed and reasoned about.
use vstd::arithmetic::power2::{
    pow2,
    lemma2_to64,
    lemma2_to64_rest,
    lemma_pow2_adds,
    lemma_pow2_pos,
    lemma_pow2_strictly_increases,
    lemma_pow2_unfold,
};
use vstd::prelude::*;

verus! {

/// `2^127`, the largest power of two that a `u128` holds.
pub proof fn lemma_pow2_127()
    ensures
        pow2(127) == 0x8000_0000_0000_0000_0000_0000_0000_0000,
{
    lemma2_to64();
    lemma2_to64_rest();
    lemma_pow2_adds(64, 63);
}

/// Every power of two with an exponent below 128 fits in a `u128`, and so does twice it
/// when the exponent is below 127.
pub proof fn lemma_pow2_fits(n: nat)
    requires
        n < 128,
    ensures
        0 < pow2(n) <= pow2(127),
        pow2(127) == 0x8000_0000_0000_0000_0000_0000_0000_0000,
        pow2(n) <= u128::MAX,
{
    lemma_pow2_127();
    lemma_pow2_pos(n);
    if n < 127 {
        lemma_pow2_strictly_increases(n, 127);
    }
}

/// The widths, in bits, that a register can have.
pub open spec fn supported_width(w: nat) -> bool {
    w == 8 || w == 16 || w == 32 || w == 64 || w == 128
}

/// The powers of two of the supported widths, and of one less than them.
pub proof fn lemma_width_pow2(w: nat)
    requires
        supported_width(w),
    ensures
        w == 8 ==> pow2(w) == 0x100 && pow2((w - 1) as nat) == 0x80,
        w == 16 ==> pow2(w) == 0x1_0000 && pow2((w - 1) as nat) == 0x8000,
        w == 32 ==> pow2(w) == 0x1_0000_0000 && pow2((w - 1) as nat) == 0x8000_0000,
        w == 64 ==> pow2(w) == 0x1_0000_0000_0000_0000 && pow2((w - 1) as nat)
            == 0x8000_0000_0000_0000,
        w == 128 ==> pow2(w) == 0x1_0000_0000_0000_0000_0000_0000_0000_0000 && pow2(
            (w - 1) as nat,
        ) == 0x8000_0000_0000_0000_0000_0000_0000_0000,
        pow2(w) == 2 * pow2((w - 1) as nat),
{
    lemma2_to64();
    lemma2_to64_rest();
    lemma_pow2_127();
    lemma_pow2_adds(64, 64);
    lemma_pow2_unfold(w);
}

/// A power of two below a width is at most half of two to the width.
pub proof fn lemma_pow2_below(k: nat, w: nat)
    requires
        k < w,
    ensures
        pow2(k) <= pow2((w - 1) as nat),
        pow2(k) < pow2(w),
{
    if k < w - 1 {
        lemma_pow2_strictly_increases(k, (w - 1) as nat);
    }
    lemma_pow2_strictly_increases(k, w);
}

/// Shifting one left by `n` places gives `2^n`.
pub proof fn lemma_one_shl(n: u32)
    requires
        n < 128,
    ensures
        (1u128 << n) == pow2(n as nat),
    decreases n,
{
    if n == 0 {
        assert(1u128 << 0u32 == 1u128) by (bit_vector);
        lemma2_to64();
    } else {
        lemma_one_shl((n - 1) as u32);
        assert((1u128 << n) == (1u128 << ((n - 1) as u32)) * 2) by (bit_vector)
            requires
                0 < n < 128,
        ;
        lemma_pow2_unfold(n as nat);
    }
}

/// Computes `2^n` for an exponent below 128.
pub fn pow2_u128(n: usize) -> (r: u128)
    requires
        n < 128,
    ensures
        r == pow2(n as nat),
        r > 0,
{
    proof {
        lemma_one_shl(n as u32);
        lemma_pow2_pos(n as nat);
    }
    1u128 << (n as u32)
}

} // verus!
