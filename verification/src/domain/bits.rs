use vstd::arithmetic::power2::{lemma2_to64, lemma_pow2_pos, pow2};
use vstd::bits::{lemma_u32_low_bits_mask_is_mod, lemma_u32_pow2_no_overflow, lemma_u32_shl_is_mul};
use vstd::prelude::*;

verus! {

/// `x` with its low `bits` bits kept and the rest cleared: `x mod 2^bits`.
pub fn low_bits(x: u32, bits: u32) -> (low: u32)
    requires
        bits <= 32,
    ensures
        low == (x as nat) % pow2(bits as nat),
        low < pow2(bits as nat),
        low <= x,
{
    proof { lemma_pow2_pos(bits as nat); }
    proof { vstd::arithmetic::div_mod::lemma_mod_decreases(x as nat, pow2(bits as nat)); }
    if bits == 32 {
        proof { lemma2_to64(); }
        assert(x & 0xffff_ffff == x) by (bit_vector);
        return x;
    }
    if bits == 0 {
        proof { lemma2_to64(); }
        return 0;
    }
    proof { lemma_u32_pow2_no_overflow(bits as nat); }
    proof { lemma2_to64(); }
    assert(1u32 * pow2(bits as nat) <= u32::MAX);
    proof { lemma_u32_shl_is_mul(1u32, bits); }
    let mask = (1u32 << bits) - 1;
    assert(mask == vstd::bits::low_bits_mask(bits as nat));
    proof { lemma_u32_low_bits_mask_is_mod(x, bits as nat); }
    x & mask
}

/// `2^bits` for `bits` below 32.
pub fn power_of_two(bits: u32) -> (power: u32)
    requires
        bits < 32,
    ensures
        power == pow2(bits as nat),
        power > 0,
{
    proof { lemma_pow2_pos(bits as nat); }
    proof { lemma_u32_pow2_no_overflow(bits as nat); }
    proof { lemma_u32_shl_is_mul(1u32, bits); }
    1u32 << bits
}

/// `x * 2^bits`, provided it fits in 32 bits.
pub fn shift_up(x: u32, bits: u32) -> (shifted: u32)
    requires
        bits < 32,
        x * pow2(bits as nat) <= u32::MAX,
    ensures
        shifted == x * pow2(bits as nat),
{
    proof { lemma_u32_shl_is_mul(x, bits); }
    x << bits
}

} // verus!
