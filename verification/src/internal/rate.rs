use crate::internal::producer::{nearest_quotient, ONE_PER_SEC};
use vstd::prelude::*;

verus! {

/// The exponent field of a single-precision bit pattern: the eight bits
/// below the sign.
pub open spec fn exponent_field(bits: u32) -> u32 {
    (bits >> 23) & 0xff
}

/// The fraction field of a single-precision bit pattern: its lowest
/// twenty-three bits.
pub open spec fn fraction_field(bits: u32) -> u32 {
    bits & 0x7f_ffff
}

/// Whether the sign bit is set.
pub open spec fn is_negative(bits: u32) -> bool {
    bits >> 31 == 1
}

/// Whether the pattern stands for a number: neither an infinity nor
/// not-a-number.
pub open spec fn is_finite(bits: u32) -> bool {
    exponent_field(bits) != 0xff
}

/// The whole number that a finite pattern scales by a power of two: the
/// fraction field, with the hidden bit in front unless the exponent field is
/// zero.
pub open spec fn significand(bits: u32) -> nat {
    if exponent_field(bits) == 0 {
        fraction_field(bits) as nat
    } else {
        (fraction_field(bits) + 0x80_0000) as nat
    }
}

/// The power of two by which a finite pattern scales its significand: the
/// pattern stands for `significand * 2^scale`, negated if the sign is set.
pub open spec fn scale(bits: u32) -> int {
    if exponent_field(bits) == 0 {
        -149
    } else {
        exponent_field(bits) - 150
    }
}

/// The rate that a single-precision bit pattern stands for, in millionths of
/// an event per second: the whole number of millionths nearest to it, a tie
/// going upward, and no more than a `u64` holds. A negative number and
/// not-a-number count as no rate at all; the positive infinity as the
/// greatest.
pub open spec fn micros_of_bits(bits: u32) -> nat {
    if is_negative(bits) {
        0
    } else if !is_finite(bits) {
        if fraction_field(bits) == 0 {
            u64::MAX as nat
        } else {
            0
        }
    } else {
        let scaled = significand(bits) * (ONE_PER_SEC as nat);
        let exact = if scale(bits) >= 0 {
            scaled * vstd::arithmetic::power2::pow2(scale(bits) as nat)
        } else {
            nearest_quotient(scaled, vstd::arithmetic::power2::pow2((-scale(bits)) as nat))
        };
        if exact > u64::MAX {
            u64::MAX as nat
        } else {
            exact
        }
    }
}

/// Less than half of a divisor rounds to nothing.
proof fn lemma_small_rounds_to_zero(a: nat, b: nat)
    requires
        2 * a < b,
    ensures
        nearest_quotient(a, b) == 0,
{
    vstd::arithmetic::div_mod::lemma_basic_div((2 * a + b) as int, (2 * b) as int);
}

/// A power of two from the sixty-fourth on, taken at least once, is more
/// than a `u64` holds.
proof fn lemma_scaled_up_overflows(scaled: nat, shift: nat)
    requires
        scaled >= 1,
        shift >= 64,
    ensures
        scaled * vstd::arithmetic::power2::pow2(shift) > u64::MAX,
{
    vstd::arithmetic::power2::lemma2_to64();
    if shift > 64 {
        vstd::arithmetic::power2::lemma_pow2_strictly_increases(64, shift);
    }
    let p = vstd::arithmetic::power2::pow2(shift);
    assert(scaled * p >= p) by (nonlinear_arith)
        requires
            scaled >= 1,
            p >= 0,
    ;
}

/// The rate that the single-precision bit pattern `bits` stands for, in
/// millionths of an event per second.
pub fn rate_micros(bits: u32) -> (micros: u64)
    ensures
        micros == micros_of_bits(bits),
{
    let sign: u32 = bits >> 31;
    let field: u32 = (bits >> 23) & 0xff;
    let fraction: u32 = bits & 0x7f_ffff;
    assert(field < 256 && fraction < 0x80_0000) by (bit_vector)
        requires
            field == (bits >> 23) & 0xff,
            fraction == bits & 0x7f_ffff,
    ;
    if sign == 1 {
        return 0;
    }
    if field == 255 {
        return if fraction == 0 {
            u64::MAX
        } else {
            0
        };
    }
    let mantissa: u64 = if field == 0 {
        fraction as u64
    } else {
        fraction as u64 + 0x80_0000
    };
    let scaled: u64 = mantissa * ONE_PER_SEC;
    assert(scaled < 0x1000_0000_0000);
    if field >= 150 {
        let shift: u64 = (field - 150) as u64;
        if scaled == 0 {
            assert(0 * vstd::arithmetic::power2::pow2(shift as nat) == 0);
            0
        } else if shift >= 64 {
            proof {
                lemma_scaled_up_overflows(scaled as nat, shift as nat);
            }
            u64::MAX
        } else {
            proof {
                vstd::bits::lemma_u64_mul_pow2_le_max_iff_max_shr(scaled, shift, u64::MAX);
            }
            if scaled > (u64::MAX >> shift) {
                u64::MAX
            } else {
                proof {
                    vstd::bits::lemma_u64_shl_is_mul(scaled, shift);
                }
                scaled << shift
            }
        }
    } else {
        let down: u64 = if field == 0 {
            149
        } else {
            (150 - field) as u64
        };
        if down >= 62 {
            proof {
                vstd::arithmetic::power2::lemma2_to64_rest();
                vstd::arithmetic::power2::lemma_pow2_strictly_increases(45, down as nat);
                lemma_small_rounds_to_zero(
                    scaled as nat,
                    vstd::arithmetic::power2::pow2(down as nat),
                );
            }
            0
        } else {
            proof {
                vstd::bits::lemma_u64_pow2_no_overflow(down as nat);
                vstd::bits::lemma_u64_pow2_no_overflow((down + 1) as nat);
                vstd::bits::lemma_u64_shl_is_mul(1, down);
                vstd::bits::lemma_u64_shl_is_mul(1, (down + 1) as u64);
                vstd::arithmetic::power2::lemma_pow2_adds(down as nat, 1);
                vstd::arithmetic::power2::lemma2_to64();
                vstd::arithmetic::power2::lemma2_to64_rest();
                vstd::arithmetic::power2::lemma_pow2_strictly_increases(down as nat, 62);
            }
            let half: u64 = 1u64 << down;
            let whole: u64 = 1u64 << (down + 1);
            (2 * scaled + half) / whole
        }
    }
}

} // verus!
