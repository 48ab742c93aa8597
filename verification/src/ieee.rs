//! IEEE 754 binary32 numbers as bit patterns: finiteness, order, and integer
//! bounds, decided on integers.
use vstd::arithmetic::power2::*;
use vstd::prelude::*;

verus! {

/// The least magnitude that is not finite.
pub const INFINITE_BITS: u32 = 0x7f80_0000;

/// The sign bit.
pub const SIGN_BIT: u32 = 0x8000_0000;

/// One past the largest fraction.
pub const FRACTION_SPAN: u32 = 0x80_0000;

/// Neither infinite nor a NaN.
pub open spec fn finite(bits: u32) -> bool {
    bits % SIGN_BIT < INFINITE_BITS
}

/// Rank of a finite number: numbers compare as their ranks, and both zeros rank
/// alike.
pub open spec fn rank(bits: u32) -> int {
    if bits < SIGN_BIT {
        bits as int
    } else {
        SIGN_BIT - bits
    }
}

/// Positive and finite.
pub open spec fn positive(bits: u32) -> bool {
    0 < bits < INFINITE_BITS
}

/// Decide finiteness.
pub fn is_finite(bits: u32) -> (verdict: bool)
    ensures
        verdict == finite(bits),
{
    bits % SIGN_BIT < INFINITE_BITS
}

/// Decide whether one finite number exceeds another.
pub fn exceeds(left: u32, right: u32) -> (verdict: bool)
    ensures
        verdict == (rank(left) > rank(right)),
{
    let left_rank: i64 = if left < SIGN_BIT {
        left as i64
    } else {
        SIGN_BIT as i64 - left as i64
    };
    let right_rank: i64 = if right < SIGN_BIT {
        right as i64
    } else {
        SIGN_BIT as i64 - right as i64
    };
    left_rank > right_rank
}

/// Integer significand of a finite magnitude.
pub open spec fn significand(magnitude: u32) -> nat {
    if magnitude < FRACTION_SPAN {
        magnitude as nat
    } else {
        (magnitude % FRACTION_SPAN + FRACTION_SPAN) as nat
    }
}

/// Power of two by which the significand is scaled.
pub open spec fn scale(magnitude: u32) -> int {
    if magnitude < FRACTION_SPAN {
        -149
    } else {
        magnitude / FRACTION_SPAN - 150
    }
}

/// Largest integer at most a finite magnitude.
pub open spec fn floor_magnitude(magnitude: u32) -> int {
    if scale(magnitude) >= 0 {
        (significand(magnitude) * pow2(scale(magnitude) as nat)) as int
    } else {
        significand(magnitude) as int / pow2((-scale(magnitude)) as nat) as int
    }
}

/// Smallest integer at least a finite magnitude.
pub open spec fn ceil_magnitude(magnitude: u32) -> int {
    if scale(magnitude) >= 0 {
        (significand(magnitude) * pow2(scale(magnitude) as nat)) as int
    } else {
        let unit = pow2((-scale(magnitude)) as nat) as int;
        (significand(magnitude) + unit - 1) / unit
    }
}

/// An integer clamped to thirty-two bits.
pub open spec fn clamped(value: int) -> i32 {
    if value > i32::MAX {
        i32::MAX
    } else if value < i32::MIN {
        i32::MIN
    } else {
        value as i32
    }
}

/// The number rounded down, clamped to thirty-two bits; a NaN counts as zero.
pub open spec fn floor_of(bits: u32) -> i32 {
    let magnitude = (bits % SIGN_BIT) as u32;
    if magnitude > INFINITE_BITS {
        0
    } else if magnitude == INFINITE_BITS {
        if bits < SIGN_BIT {
            i32::MAX
        } else {
            i32::MIN
        }
    } else if bits < SIGN_BIT {
        clamped(floor_magnitude(magnitude))
    } else {
        clamped(-ceil_magnitude(magnitude))
    }
}

/// The number rounded up, clamped to thirty-two bits; a NaN counts as zero.
pub open spec fn ceil_of(bits: u32) -> i32 {
    let magnitude = (bits % SIGN_BIT) as u32;
    if magnitude > INFINITE_BITS {
        0
    } else if magnitude == INFINITE_BITS {
        if bits < SIGN_BIT {
            i32::MAX
        } else {
            i32::MIN
        }
    } else if bits < SIGN_BIT {
        clamped(ceil_magnitude(magnitude))
    } else {
        clamped(-floor_magnitude(magnitude))
    }
}

/// A power of two below two to the thirty-second.
fn power(exponent: u32) -> (value: u64)
    requires
        exponent <= 31,
    ensures
        value == pow2(exponent as nat),
        0 < value,
{
    proof {
        lemma2_to64();
    }
    let mut value: u64 = 1;
    let mut done: u32 = 0;
    while done < exponent
        invariant
            done <= exponent <= 31,
            value == pow2(done as nat),
            0 < value <= pow2(31),
            pow2(31) == 0x8000_0000,
        decreases exponent - done,
    {
        proof {
            lemma_pow2_unfold((done + 1) as nat);
            if done + 1 < 31 {
                lemma_pow2_strictly_increases((done + 1) as nat, 31);
            }
        }
        value = value * 2;
        done += 1;
    }
    value
}

/// Both integer bounds of a finite magnitude, clamped just past thirty-two bits.
fn bounds(magnitude: u32) -> (bounds: (i64, i64))
    requires
        magnitude < INFINITE_BITS,
    ensures
        floor_magnitude(magnitude) <= 0x8000_0000 ==> bounds.0 == floor_magnitude(magnitude),
        floor_magnitude(magnitude) > 0x8000_0000 ==> bounds.0 == 0x8000_0001,
        ceil_magnitude(magnitude) <= 0x8000_0000 ==> bounds.1 == ceil_magnitude(magnitude),
        ceil_magnitude(magnitude) > 0x8000_0000 ==> bounds.1 == 0x8000_0001,
        0 <= bounds.0,
        0 <= bounds.1,
{
    proof {
        lemma2_to64();
    }
    let m: i64 = if magnitude < FRACTION_SPAN {
        magnitude as i64
    } else {
        (magnitude % FRACTION_SPAN) as i64 + FRACTION_SPAN as i64
    };
    let e: i64 = if magnitude < FRACTION_SPAN {
        -149
    } else {
        (magnitude / FRACTION_SPAN) as i64 - 150
    };
    assert(m == significand(magnitude));
    assert(e == scale(magnitude));
    if e >= 0 {
        if e > 8 {
            proof {
                if e > 9 {
                    lemma_pow2_strictly_increases(9, e as nat);
                }
                assert(m * pow2(e as nat) >= 0x80_0000 * 512) by (nonlinear_arith)
                    requires
                        m >= 0x80_0000,
                        pow2(e as nat) >= 512,
                ;
            }
            return (0x8000_0001, 0x8000_0001);
        }
        let unit: i64 = power(e as u32) as i64;
        proof {
            if e < 8 {
                lemma_pow2_strictly_increases(e as nat, 8);
            }
            assert(0 <= m * unit <= 0x100_0000 * 256) by (nonlinear_arith)
                requires
                    0 <= m <= 0x100_0000,
                    0 <= unit <= 256,
            ;
        }
        let value: i64 = m * unit;
        if value > 0x8000_0000 {
            return (0x8000_0001, 0x8000_0001);
        }
        return (value, value);
    }
    if e < -24 {
        proof {
            lemma_pow2_strictly_increases(24, (-e) as nat);
            let unit = pow2((-e) as nat) as int;
            assert(m as int / unit == 0) by (nonlinear_arith)
                requires
                    0 <= m < unit,
            ;
            if m > 0 {
                assert((m + unit - 1) / unit == 1) by (nonlinear_arith)
                    requires
                        0 < m < unit,
                ;
            } else {
                assert((unit - 1) / unit == 0) by (nonlinear_arith)
                    requires
                        0 < unit,
                ;
            }
        }
        return (
            0,
            if m > 0 {
                1
            } else {
                0
            },
        );
    }
    let unit: i64 = power((-e) as u32) as i64;
    proof {
        if -e < 24 {
            lemma_pow2_strictly_increases((-e) as nat, 24);
        }
        assert(m / unit <= m) by (nonlinear_arith)
            requires
                0 <= m,
                0 < unit,
        ;
        assert(0 <= (m + unit - 1) / (unit as int) <= m + unit) by (nonlinear_arith)
            requires
                0 <= m,
                0 < unit,
        ;
        assert(0 <= m / unit) by (nonlinear_arith)
            requires
                0 <= m,
                0 < unit,
        ;
    }
    (m / unit, (m + unit - 1) / unit)
}

/// Round a number down and clamp it to thirty-two bits.
pub fn floor(bits: u32) -> (value: i32)
    ensures
        value == floor_of(bits),
{
    let magnitude: u32 = bits % SIGN_BIT;
    if magnitude > INFINITE_BITS {
        return 0;
    }
    if magnitude == INFINITE_BITS {
        return if bits < SIGN_BIT {
            i32::MAX
        } else {
            i32::MIN
        };
    }
    let (low, high): (i64, i64) = bounds(magnitude);
    if bits < SIGN_BIT {
        if low > 0x7fff_ffff {
            i32::MAX
        } else {
            low as i32
        }
    } else if high > 0x8000_0000 {
        i32::MIN
    } else {
        (0 - high) as i32
    }
}

/// Round a number up and clamp it to thirty-two bits.
pub fn ceil(bits: u32) -> (value: i32)
    ensures
        value == ceil_of(bits),
{
    let magnitude: u32 = bits % SIGN_BIT;
    if magnitude > INFINITE_BITS {
        return 0;
    }
    if magnitude == INFINITE_BITS {
        return if bits < SIGN_BIT {
            i32::MAX
        } else {
            i32::MIN
        };
    }
    let (low, high): (i64, i64) = bounds(magnitude);
    if bits < SIGN_BIT {
        if high > 0x7fff_ffff {
            i32::MAX
        } else {
            high as i32
        }
    } else if low > 0x8000_0000 {
        i32::MIN
    } else {
        (0 - low) as i32
    }
}

// ---------------------------------------------------------------------------
// Laws
// ---------------------------------------------------------------------------

/// The significand of a number with its sign.
pub open spec fn signed_significand(bits: u32) -> int {
    if bits < SIGN_BIT {
        significand(bits) as int
    } else {
        -(significand((bits - SIGN_BIT) as u32) as int)
    }
}

/// The power of two by which a number's significand is scaled.
pub open spec fn exponent(bits: u32) -> int {
    if bits < SIGN_BIT {
        scale(bits)
    } else {
        scale((bits - SIGN_BIT) as u32)
    }
}

/// Whether an integer is at most a finite number.
pub open spec fn at_most(integer: int, bits: u32) -> bool {
    if exponent(bits) >= 0 {
        integer <= signed_significand(bits) * pow2(exponent(bits) as nat)
    } else {
        integer * pow2((-exponent(bits)) as nat) <= signed_significand(bits)
    }
}

/// Whether an integer is at least a finite number.
pub open spec fn at_least(integer: int, bits: u32) -> bool {
    if exponent(bits) >= 0 {
        integer >= signed_significand(bits) * pow2(exponent(bits) as nat)
    } else {
        integer * pow2((-exponent(bits)) as nat) >= signed_significand(bits)
    }
}

proof fn lemma_divided(number: int, unit: int)
    requires
        unit > 0,
    ensures
        (number / unit) * unit <= number < (number / unit + 1) * unit,
        ((number + unit - 1) / unit - 1) * unit < number <= ((number + unit - 1) / unit) * unit,
{
    vstd::arithmetic::div_mod::lemma_fundamental_div_mod(number, unit);
    vstd::arithmetic::div_mod::lemma_mod_bound(number, unit);
    vstd::arithmetic::div_mod::lemma_fundamental_div_mod(number + unit - 1, unit);
    vstd::arithmetic::div_mod::lemma_mod_bound(number + unit - 1, unit);
    let (down, up) = (number / unit, (number + unit - 1) / unit);
    assert(unit * down == down * unit && (down + 1) * unit == down * unit + unit && unit * up == up
        * unit && (up - 1) * unit == up * unit - unit) by (nonlinear_arith);
}

/// A finite number rounded down is the largest integer that is at most the number, and
/// rounded up the smallest one that is at least the number, where that integer is not at
/// an end of thirty-two bits.
pub proof fn law_rounding_is_to_the_next_integer(bits: u32, down: i32, up: i32)
    requires
        finite(bits),
        floor.ensures((bits,), down),
        ceil.ensures((bits,), up),
    ensures
        i32::MIN < down < i32::MAX ==> at_most(down as int, bits) && !at_most(down + 1, bits),
        i32::MIN < up < i32::MAX ==> at_least(up as int, bits) && !at_least(up - 1, bits),
{
    let magnitude = (bits % SIGN_BIT) as u32;
    let part = significand(magnitude) as int;
    if bits < SIGN_BIT {
        assert(magnitude == bits);
    } else {
        assert(magnitude == bits - SIGN_BIT);
    }
    assert(exponent(bits) == scale(magnitude));
    if scale(magnitude) >= 0 {
        let power = pow2(scale(magnitude) as nat) as int;
        assert((-part) * power == -(part * power)) by (nonlinear_arith);
    } else {
        let unit = pow2((-scale(magnitude)) as nat) as int;
        lemma_pow2_pos((-scale(magnitude)) as nat);
        lemma_divided(part, unit);
        let (lower, upper) = (part / unit, (part + unit - 1) / unit);
        assert((-upper) * unit == -(upper * unit) && (-upper + 1) * unit == -((upper - 1) * unit)
            && (-lower) * unit == -(lower * unit) && (-lower - 1) * unit == -((lower + 1) * unit))
            by (nonlinear_arith);
    }
}

/// A number is finite unless its exponent is the largest one, and numbers of one sign are
/// ordered as their magnitudes are: a positive number exceeds what has a smaller magnitude
/// or the other sign, and both zeros are alike.
pub proof fn law_numbers_compare_by_sign_and_magnitude(left: u32, right: u32, larger: bool)
    requires
        exceeds.ensures((left, right), larger),
    ensures
        left < 0x8000_0000 && right < 0x8000_0000 ==> larger == (left > right),
        left >= 0x8000_0000 && right >= 0x8000_0000 ==> larger == (left < right),
        left < 0x8000_0000 && right >= 0x8000_0000 ==> larger == (left > 0 || right
            > 0x8000_0000),
        left >= 0x8000_0000 && right < 0x8000_0000 ==> !larger,
{
}

/// A number is finite unless its exponent is the largest one.
pub proof fn law_finite_numbers_have_an_exponent(bits: u32, verdict: bool)
    requires
        is_finite.ensures((bits,), verdict),
    ensures
        verdict <==> (bits / 0x80_0000) % 0x100 != 0xff,
{
    assert(bits % 0x8000_0000 < 0x7f80_0000u32 <==> (bits / 0x80_0000) % 0x100 != 0xff)
        by (bit_vector);
}

} // verus!
