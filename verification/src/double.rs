//! Binary64 numbers as bit patterns, and their conversion to unsigned integers.
//!
//! The numbers come from JSON documents and from text. All the library does with
//! one is to round it to an integer, which it does here on the 64 bits themselves.

use vstd::arithmetic::power2::lemma2_to64;
use vstd::arithmetic::power2::lemma2_to64_rest;
use vstd::arithmetic::power2::lemma_pow2_pos;
use vstd::arithmetic::power2::lemma_pow2_strictly_increases;
use vstd::arithmetic::power2::lemma_pow2_unfold;
use vstd::arithmetic::power2::pow2;
use vstd::prelude::*;

verus! {

/// Weight of the lowest bit of the exponent field, 2 to the power 52.
pub const FRACTION_RANGE: u64 = 0x10_0000_0000_0000;

/// The sign bit is set.
pub open spec fn is_negative(bits: u64) -> bool {
    bits >= 0x8000_0000_0000_0000
}

/// The eleven bits of the biased exponent.
pub open spec fn exponent_field(bits: u64) -> int {
    (bits as int / FRACTION_RANGE as int) % 2048
}

/// The 52 bits of the fraction.
pub open spec fn fraction_field(bits: u64) -> int {
    bits as int % FRACTION_RANGE as int
}

/// The pattern stands for no number.
pub open spec fn is_nan(bits: u64) -> bool {
    exponent_field(bits) == 2047 && fraction_field(bits) != 0
}

/// The pattern stands for an infinity.
pub open spec fn is_infinite(bits: u64) -> bool {
    exponent_field(bits) == 2047 && fraction_field(bits) == 0
}

/// The integer that, scaled by `exponent`, is the magnitude of a finite number.
pub open spec fn significand(bits: u64) -> nat {
    if exponent_field(bits) == 0 {
        fraction_field(bits) as nat
    } else {
        (fraction_field(bits) + FRACTION_RANGE) as nat
    }
}

/// The power of two by which `significand` is scaled.
pub open spec fn exponent(bits: u64) -> int {
    if exponent_field(bits) == 0 {
        -1074
    } else {
        exponent_field(bits) - 1075
    }
}

/// The largest value of the result type where `n` exceeds it, else `n`.
pub open spec fn saturated(n: nat) -> nat {
    if n > u64::MAX {
        u64::MAX as nat
    } else {
        n
    }
}

/// The smallest integer not below the number, clamped to the range of `u64`;
/// zero where there is no number.
pub open spec fn rounded_up(bits: u64) -> nat {
    if is_nan(bits) || is_negative(bits) {
        0
    } else if is_infinite(bits) {
        u64::MAX as nat
    } else if exponent(bits) >= 0 {
        saturated(significand(bits) * pow2(exponent(bits) as nat))
    } else {
        let unit = pow2((-exponent(bits)) as nat);
        (significand(bits) + unit - 1) as nat / unit
    }
}

/// The number without its fraction, clamped to the range of `u64`; zero where
/// there is no number.
pub open spec fn rounded_down(bits: u64) -> nat {
    if is_nan(bits) || is_negative(bits) {
        0
    } else if is_infinite(bits) {
        u64::MAX as nat
    } else if exponent(bits) >= 0 {
        saturated(significand(bits) * pow2(exponent(bits) as nat))
    } else {
        significand(bits) / pow2((-exponent(bits)) as nat)
    }
}

/// Two to the power `k`.
fn power_of_two(k: u64) -> (r: u64)
    requires
        k < 64,
    ensures
        r == pow2(k as nat),
{
    let mut p: u64 = 1;
    let mut i: u64 = 0;
    proof {
        lemma2_to64();
        lemma2_to64_rest();
    }
    while i < k
        invariant
            i <= k < 64,
            p == pow2(i as nat),
        decreases k - i,
    {
        proof {
            lemma_pow2_unfold((i + 1) as nat);
            lemma2_to64();
            lemma2_to64_rest();
            if i + 1 < 63 {
                lemma_pow2_strictly_increases((i + 1) as nat, 63);
            }
        }
        p = p * 2;
        i += 1;
    }
    p
}

/// The parts of a finite number without a sign: the significand and either the
/// scale (`Ok`) or, for a negative exponent, the unit's exponent (`Err`).
fn finite_parts(bits: u64) -> (r: (u64, Result<u64, u64>))
    requires
        exponent_field(bits) != 2047,
    ensures
        r.0 == significand(bits),
        r.0 < 2 * FRACTION_RANGE,
        match r.1 {
            Ok(e) => e == exponent(bits) && e <= 971 && r.0 >= FRACTION_RANGE,
            Err(k) => 0 < k <= 1074 && k == -exponent(bits),
        },
{
    let field: u64 = (bits / FRACTION_RANGE) % 2048;
    let fraction: u64 = bits % FRACTION_RANGE;
    if field == 0 {
        (fraction, Err(1074))
    } else if field >= 1075 {
        (fraction + FRACTION_RANGE, Ok(field - 1075))
    } else {
        (fraction + FRACTION_RANGE, Err(1075 - field))
    }
}

/// The magnitude of a number without a fraction.
fn scaled(significand: u64, e: u64) -> (r: u64)
    requires
        FRACTION_RANGE <= significand < 2 * FRACTION_RANGE,
        e <= 971,
    ensures
        r == saturated(significand as nat * pow2(e as nat)),
{
    proof {
        lemma2_to64();
        lemma2_to64_rest();
    }
    if e > 11 {
        proof {
            if e > 12 {
                lemma_pow2_strictly_increases(12, e as nat);
            }
            assert(significand as nat * pow2(e as nat) >= 0x10_0000_0000_0000 * 0x1000)
                by (nonlinear_arith)
                requires
                    significand >= 0x10_0000_0000_0000,
                    pow2(e as nat) >= 0x1000,
            ;
        }
        u64::MAX
    } else {
        let p = power_of_two(e);
        proof {
            if e < 11 {
                lemma_pow2_strictly_increases(e as nat, 11);
            }
            assert(significand as nat * p as nat <= 0x1f_ffff_ffff_ffff * 0x800) by (nonlinear_arith)
                requires
                    significand <= 0x1f_ffff_ffff_ffff,
                    p <= 0x800,
            ;
        }
        significand * p
    }
}

/// Rounds the number up to an integer.
pub fn round_up(bits: u64) -> (r: u64)
    ensures
        r == rounded_up(bits),
{
    let field: u64 = (bits / FRACTION_RANGE) % 2048;
    if field == 2047 {
        let fraction: u64 = bits % FRACTION_RANGE;
        if fraction != 0 || bits >= 0x8000_0000_0000_0000 {
            return 0;
        }
        return u64::MAX;
    }
    if bits >= 0x8000_0000_0000_0000 {
        return 0;
    }
    let (significand, scale) = finite_parts(bits);
    match scale {
        Ok(e) => scaled(significand, e),
        Err(k) => {
            if k >= 53 {
                proof {
                    lemma2_to64();
                    lemma2_to64_rest();
                    if k > 53 {
                        lemma_pow2_strictly_increases(53, k as nat);
                    }
                    let unit = pow2(k as nat) as int;
                    let s = significand as int;
                    if s == 0 {
                        assert((s + unit - 1) / unit == 0) by (nonlinear_arith)
                            requires
                                s == 0,
                                unit > 0,
                        ;
                    } else {
                        assert((s + unit - 1) / unit == 1) by (nonlinear_arith)
                            requires
                                0 < s <= unit,
                        ;
                    }
                }
                if significand == 0 {
                    0
                } else {
                    1
                }
            } else {
                proof {
                    lemma2_to64();
                    lemma2_to64_rest();
                    lemma_pow2_strictly_increases(k as nat, 53);
                    lemma_pow2_pos(k as nat);
                }
                let unit = power_of_two(k);
                (significand + (unit - 1)) / unit
            }
        },
    }
}

/// Drops the fraction of the number.
pub fn round_down(bits: u64) -> (r: u64)
    ensures
        r == rounded_down(bits),
{
    let field: u64 = (bits / FRACTION_RANGE) % 2048;
    if field == 2047 {
        let fraction: u64 = bits % FRACTION_RANGE;
        if fraction != 0 || bits >= 0x8000_0000_0000_0000 {
            return 0;
        }
        return u64::MAX;
    }
    if bits >= 0x8000_0000_0000_0000 {
        return 0;
    }
    let (significand, scale) = finite_parts(bits);
    match scale {
        Ok(e) => scaled(significand, e),
        Err(k) => {
            if k >= 53 {
                proof {
                    lemma2_to64();
                    lemma2_to64_rest();
                    if k > 53 {
                        lemma_pow2_strictly_increases(53, k as nat);
                    }
                    let unit = pow2(k as nat) as int;
                    let s = significand as int;
                    assert(s / unit == 0) by (nonlinear_arith)
                        requires
                            0 <= s < unit,
                    ;
                }
                0
            } else {
                proof {
                    lemma_pow2_pos(k as nat);
                }
                let unit = power_of_two(k);
                significand / unit
            }
        },
    }
}

// ---------------------------------------------------------------------------
// Laws
// ---------------------------------------------------------------------------

/// Rounding up covers the number by less than one. The number is its significand in
/// parts of `unit`, so both sides are counted in these parts.
pub proof fn law_rounded_up_covers(bits: u64)
    requires
        !is_negative(bits),
        exponent_field(bits) != 2047,
        exponent(bits) < 0,
    ensures
        significand(bits) <= rounded_up(bits) * pow2((-exponent(bits)) as nat),
        rounded_up(bits) * pow2((-exponent(bits)) as nat) < significand(bits) + pow2(
            (-exponent(bits)) as nat,
        ),
{
    let unit = pow2((-exponent(bits)) as nat);
    lemma_pow2_pos((-exponent(bits)) as nat);
    let n = (significand(bits) + unit - 1) as nat;
    vstd::arithmetic::div_mod::lemma_fundamental_div_mod(n as int, unit as int);
    vstd::arithmetic::div_mod::lemma_mod_bound(n as int, unit as int);
    vstd::arithmetic::mul::lemma_mul_is_commutative(unit as int, n as int / unit as int);
}

/// Rounding down falls short of the number by less than one. The number is its
/// significand in parts of `unit`, so both sides are counted in these parts.
pub proof fn law_rounded_down_reaches(bits: u64)
    requires
        !is_negative(bits),
        exponent_field(bits) != 2047,
        exponent(bits) < 0,
    ensures
        rounded_down(bits) * pow2((-exponent(bits)) as nat) <= significand(bits),
        significand(bits) < rounded_down(bits) * pow2((-exponent(bits)) as nat) + pow2(
            (-exponent(bits)) as nat,
        ),
{
    let unit = pow2((-exponent(bits)) as nat);
    lemma_pow2_pos((-exponent(bits)) as nat);
    let n = significand(bits);
    vstd::arithmetic::div_mod::lemma_fundamental_div_mod(n as int, unit as int);
    vstd::arithmetic::div_mod::lemma_mod_bound(n as int, unit as int);
    vstd::arithmetic::mul::lemma_mul_is_commutative(unit as int, n as int / unit as int);
}

/// The bits of a number are its sign, eleven bits of exponent and 52 bits of
/// fraction.
pub proof fn law_bits_are_parted(bits: u64)
    ensures
        bits as int == (if is_negative(bits) {
            0x8000_0000_0000_0000int
        } else {
            0
        }) + exponent_field(bits) * 0x10_0000_0000_0000 + fraction_field(bits),
        0 <= exponent_field(bits) < 2048,
        0 <= fraction_field(bits) < 0x10_0000_0000_0000,
{
    let b = bits as int;
    let r: int = 0x10_0000_0000_0000;
    assert(b / r < 4096);
    if b >= 0x8000_0000_0000_0000 {
        assert(2048 <= b / r);
    } else {
        assert(b / r < 2048);
    }
}

/// A number is its significand times a power of two. The significand has 53 bits, of
/// which the highest is hidden, unless the number is too small for that.
pub proof fn law_scaled_significand(bits: u64)
    ensures
        exponent_field(bits) != 0 ==> significand(bits) == 0x10_0000_0000_0000 + fraction_field(
            bits,
        ) && exponent(bits) == exponent_field(bits) - 1023 - 52,
        exponent_field(bits) == 0 ==> significand(bits) == fraction_field(bits) && exponent(bits)
            == 1 - 1023 - 52,
{
}

/// What is no number, and what is negative, is rounded to zero, and what is too large
/// to the largest value. A number without a fraction is itself.
pub proof fn law_rounded_extremes(bits: u64)
    ensures
        exponent_field(bits) == 2047 && fraction_field(bits) != 0 ==> rounded_up(bits) == 0
            && rounded_down(bits) == 0,
        is_negative(bits) ==> rounded_up(bits) == 0 && rounded_down(bits) == 0,
        !is_negative(bits) && exponent_field(bits) == 2047 && fraction_field(bits) == 0
            ==> rounded_up(bits) == 0xffff_ffff_ffff_ffff && rounded_down(bits)
            == 0xffff_ffff_ffff_ffff,
        !is_negative(bits) && exponent_field(bits) != 2047 && exponent(bits) >= 0 ==> {
            let n = significand(bits) * pow2(exponent(bits) as nat);
            &&& rounded_up(bits) == rounded_down(bits)
            &&& n <= 0xffff_ffff_ffff_ffff ==> rounded_up(bits) == n
            &&& n > 0xffff_ffff_ffff_ffff ==> rounded_up(bits) == 0xffff_ffff_ffff_ffff
        },
{
}

} // verus!
