//! Similarity scores, held as the IEEE-754 bit pattern of a single-precision
//! float, and the total order in which result lists rank them.
use vstd::prelude::*;

use vstd::arithmetic::div_mod::lemma_fundamental_div_mod_converse;
use vstd::arithmetic::power2::{lemma2_to64, lemma_pow2_unfold, pow2};

verus! {

/// Bit pattern of the largest finite magnitude plus one: the magnitude of infinity.
pub const INFINITY_MAGNITUDE: u32 = 0x7F80_0000;

/// The sign bit of a single-precision float.
pub const SIGN_BIT: u32 = 0x8000_0000;

/// The weight of the lowest exponent bit: the mantissa has 23 bits.
pub const MANTISSA_SCALE: u32 = 0x80_0000;

/// Bit pattern of the score 1.0.
pub const ONE_BITS: u32 = 0x3F80_0000;

/// The number of distinct fractions that a random score can take: a random
/// score is `m / FRACTION_SCALE` for some `m < FRACTION_SCALE`.
pub const FRACTION_SCALE: u32 = 0x100_0000;

/// `bits` encodes the float `m / FRACTION_SCALE`: zero for zero, and else the
/// normal float whose mantissa, with its hidden bit, is `m` shifted left by
/// as many places as the exponent lies below that of 0.5.
pub open spec fn encodes_fraction(bits: u32, m: nat) -> bool {
    if m == 0 {
        bits == 0
    } else {
        &&& bits < ONE_BITS
        &&& MANTISSA_SCALE + bits % MANTISSA_SCALE == m * pow2((126 - bits / MANTISSA_SCALE) as nat)
    }
}

/// Magnitude bits of a float: its bit pattern without the sign bit.
pub open spec fn magnitude(bits: u32) -> int {
    bits as int % SIGN_BIT as int
}

/// A bit pattern that encodes "not a number".
pub open spec fn is_nan_bits(bits: u32) -> bool {
    magnitude(bits) > INFINITY_MAGNITUDE as int
}

/// Position of a float in the ranking order: the order of the real values,
/// with both zeros equal and every NaN below negative infinity.
pub open spec fn rank_of(bits: u32) -> int {
    if is_nan_bits(bits) {
        -(SIGN_BIT as int)
    } else if bits >= SIGN_BIT {
        -magnitude(bits)
    } else {
        magnitude(bits)
    }
}

/// A score: the bit pattern of a single-precision float.
/// Higher scores mean more similar items.
#[derive(Clone, Copy, PartialEq, Eq, Structural, Debug)]
pub struct Score {
    pub bits: u32,
}

impl Score {
    pub open spec fn rank(self) -> int {
        rank_of(self.bits)
    }

    pub fn from_bits(bits: u32) -> (r: Score)
        ensures
            r.bits == bits,
    {
        Score { bits }
    }

    /// The ranking position of this score as an integer.
    pub fn rank_key(&self) -> (r: i64)
        ensures
            r == self.rank(),
    {
        let magnitude: u32 = self.bits % SIGN_BIT;
        if magnitude > INFINITY_MAGNITUDE {
            -(SIGN_BIT as i64)
        } else if self.bits >= SIGN_BIT {
            -(magnitude as i64)
        } else {
            magnitude as i64
        }
    }

    /// The score `m / FRACTION_SCALE`, a float in `[0, 1)`.
    pub fn from_fraction(m: u32) -> (r: Score)
        requires
            m < FRACTION_SCALE,
        ensures
            encodes_fraction(r.bits, m as nat),
            0 <= r.rank() < rank_of(ONE_BITS),
    {
        if m == 0 {
            return Score { bits: 0 };
        }
        let mut norm: u32 = m;
        let mut shift: u32 = 0;
        proof {
            lemma2_to64();
        }
        while norm < MANTISSA_SCALE
            invariant
                0 < norm < FRACTION_SCALE,
                shift <= 23,
                norm == m * pow2(shift as nat),
                norm < MANTISSA_SCALE ==> shift < 23,
                pow2(0) == 1,
            decreases FRACTION_SCALE - norm,
        {
            let ghost old_shift = shift;
            norm = norm * 2;
            shift = shift + 1;
            proof {
                lemma2_to64();
                lemma_pow2_unfold(shift as nat);
                let p = pow2(old_shift as nat);
                assert(m * (2 * p) == 2 * (m * p)) by (nonlinear_arith);
                if norm < MANTISSA_SCALE && shift >= 23 {
                    assert(m * pow2(shift as nat) >= pow2(shift as nat)) by (nonlinear_arith)
                        requires
                            m >= 1,
                    ;
                }
            }
        }
        let bits: u32 = (126 - shift) * MANTISSA_SCALE + (norm - MANTISSA_SCALE);
        proof {
            lemma_fundamental_div_mod_converse(
                bits as int,
                MANTISSA_SCALE as int,
                (126 - shift) as int,
                (norm - MANTISSA_SCALE) as int,
            );
        }
        Score { bits }
    }

    /// Whether this score ranks at least as high as `other`.
    pub fn ranks_at_least(&self, other: &Score) -> (r: bool)
        ensures
            r == (self.rank() >= other.rank()),
    {
        self.rank_key() >= other.rank_key()
    }
}

} // verus!
