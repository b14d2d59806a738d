//! Small bit-manipulation helpers shared by the decoder and the executor.

use vstd::prelude::*;

verus! {

/// A word with the low `n` bits set.
pub open spec fn mask_bits(n: u32) -> u32 {
    if n >= 32 {
        u32::MAX
    } else {
        ((1u32 << n) - 1) as u32
    }
}

/// Builds a mask with the low `n` bits set.
pub fn mask(n: u32) -> (r: u32)
    requires
        n <= 32,
    ensures
        r == mask_bits(n),
{
    if n >= 32 {
        u32::MAX
    } else {
        proof {
            assert(n < 32 ==> (1u32 << n) >= 1) by (bit_vector);
        }
        (1u32 << n) - 1
    }
}

/// The low `from` bits of `n` interpreted as a two's-complement value of
/// `from` bits, widened to 32 bits.
pub open spec fn sext_bits(n: u32, from: u32) -> u32 {
    if from >= 32 {
        n
    } else if (n >> (from - 1) as u32) & 1 == 1 {
        n | (u32::MAX << from)
    } else {
        n & (((1u32 << from) - 1) as u32)
    }
}

/// Sign extension: the low `from` bits of `n` become a signed value of `to`
/// (= 32) bits.
pub fn sext(n: u32, from: u32, to: u32) -> (r: u32)
    requires
        1 <= from <= 32,
        to == 32,
    ensures
        r == sext_bits(n, from),
{
    if from == 32 {
        n
    } else {
        let sign: u32 = (n >> (from - 1)) & 1;
        proof {
            assert(from < 32 ==> (1u32 << from) >= 1) by (bit_vector);
        }
        if sign == 1 {
            n | (u32::MAX << from)
        } else {
            n & ((1u32 << from) - 1)
        }
    }
}

/// Most significant bit: the largest power of two not above `n`, or 0 when
/// `n` is 0.
pub fn msb(n: u32) -> (r: u32)
    ensures
        n == 0 ==> r == 0,
        n > 0 ==> r <= n < 2 * r,
        n > 0 ==> exists|k: u32| k < 32 && r == #[trigger] (1u32 << k),
{
    let mut i: u32 = 32;
    proof {
        assert(n < (1u64 << 32u32)) by (bit_vector);
    }
    while i > 0
        invariant
            i <= 32,
            n < (1u64 << i),
        decreases i,
    {
        i = i - 1;
        if n & (1u32 << i) != 0 {
            proof {
                assert((1u32 << i) <= n && n < 2 * (1u32 << i)) by (bit_vector)
                    requires
                        i < 32,
                        n & (1u32 << i) != 0,
                        n < (1u64 << (i + 1) as u32),
                ;
            }
            return 1u32 << i;
        }
        proof {
            assert(n < (1u64 << i)) by (bit_vector)
                requires
                    i < 32,
                    n & (1u32 << i) == 0,
                    n < (1u64 << (i + 1) as u32),
            ;
        }
    }
    proof {
        assert(n < (1u64 << 0u32) ==> n == 0) by (bit_vector);
    }
    0
}

} // verus!
