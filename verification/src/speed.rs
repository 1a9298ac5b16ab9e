//! A commanded speed, read from the bit pattern of a single-precision
//! number.
//!
//! The pattern has one sign bit, eight exponent bits and 23 fraction bits.
//! Every finite pattern is a whole multiple of 2^-149, so a magnitude is
//! modelled exactly as a natural number of such units.

use vstd::prelude::*;
use vstd::arithmetic::div_mod::{
    lemma_basic_div, lemma_div_is_ordered, lemma_div_multiples_vanish_quotient,
    lemma_fundamental_div_mod, lemma_fundamental_div_mod_converse_div, lemma_mod_bound,
};
use vstd::arithmetic::power2::{
    lemma2_to64, lemma_pow2_adds, lemma_pow2_pos, lemma_pow2_strictly_increases,
    lemma_pow2_unfold, pow2,
};

verus! {

/// Number of discrete duty steps in one switching cycle of the bridge.
pub const PERIOD: u16 = 256;

/// Weight of the sign bit in a pattern.
pub const SIGN_WEIGHT: u32 = 0x8000_0000;

/// Weight of the lowest exponent bit, which is also the implicit leading one
/// of a normal significand.
pub const HIDDEN_ONE: u32 = 0x80_0000;

/// The pattern of +1.0.
pub const ONE_PATTERN: u32 = 0x3f80_0000;

/// The eight exponent bits of a pattern.
pub open spec fn exponent_field(bits: u32) -> nat {
    ((bits as nat) / 0x80_0000) % 256
}

/// The 23 fraction bits of a pattern.
pub open spec fn fraction_field(bits: u32) -> nat {
    (bits as nat) % 0x80_0000
}

/// Whether the sign bit of a pattern is set.
pub open spec fn sign_set(bits: u32) -> bool {
    bits >= 0x8000_0000
}

/// Whether a pattern stands for a number (neither an infinity nor a NaN).
pub open spec fn is_finite(bits: u32) -> bool {
    exponent_field(bits) != 255
}

/// The absolute value of a finite pattern, in units of 2^-149.
pub open spec fn magnitude(bits: u32) -> nat {
    if exponent_field(bits) == 0 {
        fraction_field(bits)
    } else {
        (0x80_0000 + fraction_field(bits)) * pow2((exponent_field(bits) - 1) as nat)
    }
}

/// The number 1 in units of 2^-149.
pub open spec fn unit() -> nat {
    pow2(149)
}

/// Whether a pattern is a number in `[-1, 1]`.
pub open spec fn in_range(bits: u32) -> bool {
    is_finite(bits) && magnitude(bits) <= unit()
}

/// Whether a pattern is one of the two zeros.
pub open spec fn is_zero(bits: u32) -> bool {
    is_finite(bits) && magnitude(bits) == 0
}

/// `PERIOD` times the magnitude, rounded to the nearest whole step, a half
/// step going up: the floor of `PERIOD * |x| + 1/2`.
pub open spec fn rounded_duty(bits: u32) -> nat {
    (2 * (PERIOD as nat * magnitude(bits)) + unit()) / (2 * unit())
}

/// The rounded duty is the whole number of steps nearest to `PERIOD` times
/// the magnitude: the two differ by half a step at most, and a difference of
/// exactly half a step was rounded up.
pub proof fn lemma_duty_is_nearest_step(bits: u32)
    ensures
        PERIOD as nat * magnitude(bits) - unit() / 2 <= rounded_duty(bits) * unit(),
        rounded_duty(bits) * unit() <= PERIOD as nat * magnitude(bits) + unit() / 2,
        rounded_duty(bits) * unit() != PERIOD as nat * magnitude(bits) - unit() / 2,
{
    let u = unit() as int;
    let exact = 2 * (PERIOD as nat * magnitude(bits)) + u;
    lemma_pow2_pos(149);
    lemma_pow2_unfold(149);
    lemma_fundamental_div_mod(exact, 2 * u);
    lemma_mod_bound(exact, 2 * u);
    assert((2 * u) * (exact / (2 * u)) == 2 * ((exact / (2 * u)) * u)) by (nonlinear_arith);
}

/// The fields of a pattern, read from the pattern without its sign bit.
proof fn lemma_fields(bits: u32)
    ensures
        exponent_field(bits) == (bits % 0x8000_0000) / 0x80_0000,
        fraction_field(bits) == (bits % 0x8000_0000) % 0x80_0000,
        exponent_field(bits) <= 255,
        fraction_field(bits) < 0x80_0000,
        (bits % 0x8000_0000) == exponent_field(bits) * 0x80_0000 + fraction_field(bits),
{
}

/// A normal significand times a power of two lies between that power of two
/// shifted by 23 and by 24 places, and meets the lower bound only with an
/// empty fraction.
proof fn lemma_normal_bounds(fraction: nat, k: nat)
    requires
        fraction < 0x80_0000,
    ensures
        pow2(k + 23) <= (0x80_0000 + fraction) * pow2(k) < pow2(k + 24),
        (0x80_0000 + fraction) * pow2(k) == pow2(k + 23) <==> fraction == 0,
{
    lemma2_to64();
    lemma_pow2_adds(k, 23);
    lemma_pow2_adds(k, 24);
    lemma_pow2_pos(k);
    let p = pow2(k);
    assert(pow2(k + 23) == p * 0x80_0000);
    assert(pow2(k + 24) == p * 0x100_0000);
    assert(p * 0x80_0000 <= (0x80_0000 + fraction) * p < p * 0x100_0000
        && ((0x80_0000 + fraction) * p == p * 0x80_0000 <==> fraction == 0)) by (nonlinear_arith)
        requires
            p > 0,
            fraction < 0x80_0000,
    ;
}

/// `pow2` does not decrease.
proof fn lemma_pow2_ordered(a: nat, b: nat)
    requires
        a <= b,
    ensures
        pow2(a) <= pow2(b),
{
    if a < b {
        lemma_pow2_strictly_increases(a, b);
    }
}

/// A pattern is in range exactly when, without its sign bit, it is at most
/// the pattern of 1.0, and a zero exactly when nothing but its sign bit is
/// set.
pub proof fn lemma_range_by_pattern(bits: u32)
    ensures
        in_range(bits) <==> bits % 0x8000_0000 <= 0x3f80_0000,
        is_zero(bits) <==> bits == 0 || bits == 0x8000_0000,
        is_zero(bits) ==> in_range(bits),
{
    lemma_fields(bits);
    lemma2_to64();
    let e = exponent_field(bits);
    let f = fraction_field(bits);
    if e == 0 {
        lemma_pow2_strictly_increases(23, 149);
    } else {
        let k = (e - 1) as nat;
        lemma_normal_bounds(f, k);
        lemma_pow2_pos(k + 23);
        if e <= 126 {
            lemma_pow2_ordered(k + 24, 149);
        } else if e == 127 {
            assert(k + 23 == 149);
        } else {
            lemma_pow2_strictly_increases(149, k + 23);
        }
    }
}

/// Whether `bits` is the pattern of a number in `[-1, 1]`.
pub fn speed_in_range(bits: u32) -> (ok: bool)
    ensures
        ok == in_range(bits),
{
    proof {
        lemma_range_by_pattern(bits);
    }
    bits % SIGN_WEIGHT <= ONE_PATTERN
}

/// Whether `bits` is the pattern of +0.0 or of -0.0.
pub fn speed_is_zero(bits: u32) -> (zero: bool)
    ensures
        zero == is_zero(bits),
{
    proof {
        lemma_range_by_pattern(bits);
    }
    bits % SIGN_WEIGHT == 0
}

/// Whether the sign bit of `bits` is set.
pub fn speed_is_negative(bits: u32) -> (negative: bool)
    ensures
        negative == sign_set(bits),
{
    bits >= SIGN_WEIGHT
}

/// The rounded duty of a normal pattern, with the common power of two
/// cancelled: the significand is divided by `2^shift`, where `shift` is 142
/// less the exponent field, after half of that divisor has been added.
pub proof fn lemma_duty_of_normal(bits: u32)
    requires
        1 <= exponent_field(bits) <= 127,
    ensures
        rounded_duty(bits) == (0x80_0000 + fraction_field(bits) + pow2(
            (141 - exponent_field(bits)) as nat,
        )) / pow2((142 - exponent_field(bits)) as nat),
        pow2((142 - exponent_field(bits)) as nat) == 2 * pow2((141 - exponent_field(bits)) as nat),
{
    let e = exponent_field(bits);
    let m = 0x80_0000 + fraction_field(bits);
    let low = pow2((e - 1) as nat);
    let common = pow2(e + 8);
    let half = pow2((141 - e) as nat);
    let whole = pow2((142 - e) as nat);
    lemma2_to64();
    lemma_pow2_adds(9, (e - 1) as nat);
    lemma_pow2_adds(e + 8, (141 - e) as nat);
    lemma_pow2_unfold((142 - e) as nat);
    lemma_pow2_pos(e + 8);
    lemma_pow2_pos((141 - e) as nat);
    assert(9 + (e - 1) as nat == e + 8);
    assert(e + 8 + (141 - e) as nat == 149);
    assert(common == 512 * low);
    assert(unit() == common * half);
    assert(whole == 2 * half);
    assert(2 * (256 * (m * low)) + common * half == common * (m + half) && 2 * (common * half)
        == common * whole) by (nonlinear_arith)
        requires
            common == 512 * low,
            whole == 2 * half,
    ;
    lemma_div_multiples_vanish_quotient(common as int, (m + half) as int, whole as int);
}

/// A zero asks for no duty.
pub proof fn lemma_zero_has_no_duty(bits: u32)
    requires
        is_zero(bits),
    ensures
        rounded_duty(bits) == 0,
{
    lemma_pow2_pos(149);
    lemma_basic_div(unit() as int, 2 * unit() as int);
}

/// No speed in range asks for more than the whole period.
pub proof fn lemma_duty_within_period(bits: u32)
    requires
        in_range(bits),
    ensures
        rounded_duty(bits) <= PERIOD,
{
    let u = unit() as int;
    lemma_pow2_pos(149);
    lemma_div_is_ordered(2 * (256 * magnitude(bits)) + u, 513 * u, 2 * u);
    lemma_fundamental_div_mod_converse_div(513 * u, 2 * u, 256, u);
}

/// `2^exponent`, for an exponent that a `u32` can hold.
fn power_of_two(exponent: u32) -> (power: u32)
    requires
        exponent <= 31,
    ensures
        power == pow2(exponent as nat),
{
    let mut power: u32 = 1;
    let mut done: u32 = 0;
    proof {
        lemma2_to64();
    }
    while done < exponent
        invariant
            done <= exponent <= 31,
            power == pow2(done as nat),
        decreases exponent - done,
    {
        proof {
            lemma_pow2_unfold((done + 1) as nat);
            lemma_pow2_ordered((done + 1) as nat, 31);
            lemma2_to64();
        }
        power = power * 2;
        done = done + 1;
    }
    power
}

/// The duty that a speed in range asks for: `PERIOD` times its magnitude,
/// rounded to the nearest step, a half step going up.
pub fn duty_for(bits: u32) -> (duty: u16)
    requires
        in_range(bits),
    ensures
        duty == rounded_duty(bits),
        duty <= PERIOD,
{
    let magnitude_bits: u32 = bits % SIGN_WEIGHT;
    let exponent: u32 = magnitude_bits / HIDDEN_ONE;
    let fraction: u32 = magnitude_bits % HIDDEN_ONE;
    proof {
        lemma_fields(bits);
        lemma_range_by_pattern(bits);
        lemma_duty_within_period(bits);
        lemma2_to64();
    }
    if exponent == 0 {
        proof {
            lemma_pow2_strictly_increases(32, 149);
            lemma_basic_div((2 * (256 * magnitude(bits)) + unit()) as int, (2 * unit()) as int);
        }
        0
    } else {
        proof {
            lemma_duty_of_normal(bits);
        }
        if exponent <= 117 {
            proof {
                let half = pow2((141 - exponent) as nat);
                lemma_pow2_ordered(24, (141 - exponent) as nat);
                lemma_basic_div((HIDDEN_ONE + fraction + half) as int, (2 * half) as int);
            }
            0
        } else {
            let divisor: u32 = power_of_two(142 - exponent);
            proof {
                lemma_pow2_ordered((142 - exponent) as nat, 24);
            }
            let steps: u32 = (HIDDEN_ONE + fraction + divisor / 2) / divisor;
            steps as u16
        }
    }
}

} // verus!
