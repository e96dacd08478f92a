//! IEEE-754 values as integers.
//!
//! A double-precision value is carried as its 64-bit pattern. Its magnitude
//! is `significand * 2^exponent` for an integer significand below 2^53, so
//! scaling and rounding can be stated and computed over integers alone.

use vstd::arithmetic::div_mod::*;
use vstd::arithmetic::mul::*;
use vstd::arithmetic::power2::*;
use vstd::bits::lemma_u64_shl_is_mul;
use vstd::prelude::*;

verus! {

/// The sign bit of a double-precision pattern.
pub open spec fn is_negative(bits: u64) -> bool {
    bits >= 0x8000_0000_0000_0000
}

/// The 11-bit biased exponent field.
pub open spec fn exponent_field(bits: u64) -> nat {
    ((bits / 0x10_0000_0000_0000) % 0x800) as nat
}

/// The 52-bit fraction field.
pub open spec fn fraction_field(bits: u64) -> nat {
    (bits % 0x10_0000_0000_0000) as nat
}

/// Neither an infinity nor a NaN.
pub open spec fn is_finite(bits: u64) -> bool {
    exponent_field(bits) != 0x7FF
}

/// A NaN: all exponent bits set and a fraction other than zero.
pub open spec fn is_nan(bits: u64) -> bool {
    exponent_field(bits) == 0x7FF && fraction_field(bits) != 0
}

/// The integer significand of a finite value: the fraction, with the hidden
/// bit in front unless the value is zero or subnormal.
pub open spec fn significand(bits: u64) -> nat {
    if exponent_field(bits) == 0 {
        fraction_field(bits)
    } else {
        fraction_field(bits) + 0x10_0000_0000_0000
    }
}

/// The power of two that weighs the significand of a finite value.
pub open spec fn exponent(bits: u64) -> int {
    if exponent_field(bits) == 0 {
        -1074
    } else {
        exponent_field(bits) - 1075
    }
}

/// `n / 2^k` rounded to the nearest integer, a tie going to the even one.
pub open spec fn round_half_even(n: nat, k: nat) -> nat {
    let quotient = n / pow2(k);
    let rest = n % pow2(k);
    if 2 * rest > pow2(k) || (2 * rest == pow2(k) && quotient % 2 == 1) {
        quotient + 1
    } else {
        quotient
    }
}

/// `n / 2^k` rounded to the nearest integer, a tie going up.
pub open spec fn round_half_up(n: nat, k: nat) -> nat {
    (2 * n + pow2(k)) / (2 * pow2(k))
}

/// How many low bits an integer must lose to fit in the 53 bits of a
/// double-precision significand.
pub open spec fn excess_bits(n: nat) -> nat
    decreases n,
{
    if n < 0x20_0000_0000_0000 {
        0
    } else {
        1 + excess_bits(n / 2)
    }
}

/// The significand of the double nearest to 1000 times a finite value.
pub open spec fn product_significand(bits: u64) -> nat {
    let exact = 1000 * significand(bits);
    round_half_even(exact, excess_bits(exact))
}

/// The exponent of the double nearest to 1000 times a finite value.
pub open spec fn product_exponent(bits: u64) -> int {
    exponent(bits) + excess_bits(1000 * significand(bits))
}

/// The magnitude of 1000 times a finite value, as double-precision
/// arithmetic gives it, rounded to the nearest integer with a tie going away
/// from zero.
pub open spec fn rounded_magnitude(bits: u64) -> nat {
    let e = product_exponent(bits);
    if e >= 0 {
        product_significand(bits) * pow2(e as nat)
    } else {
        round_half_up(product_significand(bits), (-e) as nat)
    }
}

/// A double-precision value times 1000, rounded to the nearest integer and
/// brought into the signed 32-bit range: a NaN gives 0, and a magnitude
/// beyond the range gives the nearest bound.
pub open spec fn thousandths(bits: u64) -> int {
    if is_nan(bits) {
        0
    } else if !is_finite(bits) || rounded_magnitude(bits) >= 0x8000_0000 {
        if is_negative(bits) {
            -0x8000_0000
        } else {
            0x7FFF_FFFF
        }
    } else if is_negative(bits) {
        -(rounded_magnitude(bits) as int)
    } else {
        rounded_magnitude(bits) as int
    }
}

/// An integer between 2^(52+d) and 2^(53+d) has d bits too many.
proof fn lemma_excess_bits(n: nat, d: nat)
    requires
        d == 0 ==> n < pow2(53),
        d > 0 ==> pow2(52 + d) <= n < pow2(53 + d),
    ensures
        excess_bits(n) == d,
    decreases d,
{
    lemma2_to64_rest();
    if d > 0 {
        lemma_pow2_strictly_increases(53, 53 + d);
        lemma_pow2_unfold(52 + d);
        lemma_pow2_unfold(53 + d);
        if d == 1 {
            lemma_excess_bits(n / 2, 0);
        } else {
            lemma_excess_bits(n / 2, (d - 1) as nat);
        }
    }
}

/// A significand of at most 54 bits is less than half of 2^k once k is 55
/// or more, so it rounds to zero.
proof fn lemma_round_half_up_vanishes(n: nat, k: nat)
    requires
        n <= 0x20_0000_0000_0000,
        k >= 55,
    ensures
        round_half_up(n, k) == 0,
{
    lemma2_to64_rest();
    if k > 55 {
        lemma_pow2_strictly_increases(55, k);
    }
    lemma_basic_div((2 * n + pow2(k)) as int, (2 * pow2(k)) as int);
}

/// Scales a double-precision value, given by its bit pattern, by 1000 and
/// rounds it to a signed 32-bit count of thousandths. The result is the one
/// that a multiplication in double precision, a rounding with ties away
/// from zero and a saturating conversion produce.
pub fn scale_to_thousandths(bits: u64) -> (count: i32)
    ensures
        count == thousandths(bits),
{
    let negative = bits >= 0x8000_0000_0000_0000;
    let field: u64 = (bits / 0x10_0000_0000_0000) % 0x800;
    let fraction: u64 = bits % 0x10_0000_0000_0000;
    let bound: i32 = if negative {
        i32::MIN
    } else {
        i32::MAX
    };
    if field == 0x7FF {
        return if fraction != 0 {
            0
        } else {
            bound
        };
    }
    proof {
        lemma2_to64();
        lemma2_to64_rest();
    }
    if field == 0 {
        // Zero or subnormal: far below a half after scaling.
        proof {
            let exact = 1000 * significand(bits);
            let d = excess_bits(exact);
            if exact < pow2(53) {
                lemma_excess_bits(exact, 0);
            } else if exact < pow2(54) {
                lemma_excess_bits(exact, 1);
            } else if exact < pow2(55) {
                lemma_excess_bits(exact, 2);
            } else if exact < pow2(56) {
                lemma_excess_bits(exact, 3);
            } else if exact < pow2(57) {
                lemma_excess_bits(exact, 4);
            } else if exact < pow2(58) {
                lemma_excess_bits(exact, 5);
            } else if exact < pow2(59) {
                lemma_excess_bits(exact, 6);
            } else if exact < pow2(60) {
                lemma_excess_bits(exact, 7);
            } else if exact < pow2(61) {
                lemma_excess_bits(exact, 8);
            } else {
                lemma_excess_bits(exact, 9);
            }
            assert(d <= 9);
            lemma_rounded_fits(exact, d);
            lemma_round_half_up_vanishes(product_significand(bits), (1074 - d) as nat);
        }
        return 0;
    }
    let exact: u64 = (fraction + 0x10_0000_0000_0000) * 1000;
    let excess: u64 = if exact >= 0x4000_0000_0000_0000 {
        10
    } else {
        9
    };
    let unit: u64 = if exact >= 0x4000_0000_0000_0000 {
        1024
    } else {
        512
    };
    let quotient = exact / unit;
    let rest = exact % unit;
    let rounded: u64 = if 2 * rest > unit || (2 * rest == unit && quotient % 2 == 1) {
        quotient + 1
    } else {
        quotient
    };
    proof {
        lemma_excess_bits(exact as nat, excess as nat);
        assert(unit == pow2(excess as nat));
        assert(rounded == product_significand(bits));
        assert(product_exponent(bits) == field - 1075 + excess);
        assert(0x10_0000_0000_0000 <= rounded <= 0x20_0000_0000_0000);
    }
    if field + excess >= 1075 {
        proof {
            let e = (field + excess - 1075) as nat;
            lemma_pow2_pos(e);
            lemma_mul_inequality(1, pow2(e) as int, rounded as int);
            lemma_mul_is_commutative(rounded as int, pow2(e) as int);
        }
        return bound;
    }
    let shift: u64 = 1075 - field - excess;
    if shift >= 55 {
        proof {
            lemma_round_half_up_vanishes(rounded as nat, shift as nat);
        }
        return 0;
    }
    proof {
        lemma_pow2_strictly_increases(shift as nat, 55);
        lemma_u64_shl_is_mul(1, shift);
    }
    let weight: u64 = 1u64 << shift;
    let magnitude: u64 = (2 * rounded + weight) / (2 * weight);
    assert(magnitude == rounded_magnitude(bits));
    if magnitude >= 0x8000_0000 {
        bound
    } else if negative {
        -(magnitude as i32)
    } else {
        magnitude as i32
    }
}

/// The product of a normal value with 1000 has nine bits too many for a
/// significand where it stays below 2^62, and ten where it does not.
pub proof fn lemma_product_excess(bits: u64)
    requires
        0 < exponent_field(bits) < 0x7FF,
    ensures
        excess_bits(1000 * significand(bits)) == if 1000 * significand(bits)
            < 0x4000_0000_0000_0000 {
            9nat
        } else {
            10nat
        },
{
    lemma2_to64_rest();
    let exact = 1000 * significand(bits);
    if exact < 0x4000_0000_0000_0000 {
        lemma_excess_bits(exact, 9);
    } else {
        lemma_excess_bits(exact, 10);
    }
}

/// Rounding an integer to 53 bits leaves at most 2^53.
proof fn lemma_rounded_fits(n: nat, d: nat)
    requires
        excess_bits(n) == d,
        n < pow2(53 + d),
    ensures
        round_half_even(n, d) <= 0x20_0000_0000_0000,
{
    lemma2_to64_rest();
    lemma_pow2_pos(d);
    lemma_pow2_adds(53, d);
    let p = pow2(d) as int;
    lemma_fundamental_div_mod(n as int, p);
    assert(n / pow2(d) < pow2(53)) by {
        lemma_div_is_ordered(n as int, (pow2(53) * p - 1) as int, p);
        lemma_fundamental_div_mod_converse_div((pow2(53) * p - 1) as int, p, pow2(53) - 1, p - 1);
        lemma_mul_is_commutative(p, pow2(53) - 1);
        lemma_mul_is_distributive_sub(p, pow2(53) as int, 1);
    }
}

/// The pattern of the single-precision value nearest to one millionth,
/// which is 8796093 * 2^-43.
pub const MILLIONTH: u32 = 0x3586_37BD;

/// A single-precision pattern without its sign bit.
pub open spec fn magnitude_bits(bits: u32) -> u32 {
    (bits % 0x8000_0000) as u32
}

/// Whether a single-precision value is smaller in magnitude than the
/// single-precision millionth. Patterns without sign are ordered as the
/// magnitudes they stand for, and those of NaNs lie above all others, so a
/// NaN is not below.
pub open spec fn below_millionth(bits: u32) -> bool {
    magnitude_bits(bits) < MILLIONTH
}

/// Tests a single-precision value, given by its bit pattern, for a
/// magnitude below the single-precision millionth.
pub fn is_below_millionth(bits: u32) -> (below: bool)
    ensures
        below == below_millionth(bits),
{
    bits % 0x8000_0000 < MILLIONTH
}

/// The significand of a finite value with the sign of the value.
pub open spec fn signed_significand(bits: u64) -> int {
    if is_negative(bits) {
        -(significand(bits) as int)
    } else {
        significand(bits) as int
    }
}

/// Whether `count` thousandths differ from a finite value by half a
/// thousandth at most. With m the signed significand and e the exponent of
/// the value this is |count - 1000 * m * 2^e| <= 1/2, stated over integers.
pub open spec fn within_half_thousandth(bits: u64, count: int) -> bool {
    let e = exponent(bits);
    let exact = 1000 * signed_significand(bits);
    if e >= 0 {
        count == exact * pow2(e as nat)
    } else {
        let unit = pow2((-e) as nat) as int;
        -unit <= 2 * (count * unit - exact) <= unit
    }
}

/// Whether the product of a finite value with 1000 was rounded up, in double
/// precision, onto a number that lies halfway between two integers. The
/// rounding to an integer then goes away from zero although the exact
/// product is nearer to the integer towards zero.
pub open spec fn rounds_up_onto_tie(bits: u64) -> bool {
    let exact = 1000 * significand(bits);
    let e = product_exponent(bits);
    &&& e < 0
    &&& product_significand(bits) * pow2(excess_bits(exact)) > exact
    &&& 2 * (product_significand(bits) % pow2((-e) as nat)) == pow2((-e) as nat)
}

/// An integer with d bits too many lies between 2^(52+d) and 2^(53+d).
proof fn lemma_excess_bits_bounds(n: nat)
    ensures
        n < pow2(53 + excess_bits(n)),
        excess_bits(n) > 0 ==> pow2(52 + excess_bits(n)) <= n,
    decreases n,
{
    lemma2_to64_rest();
    if n >= 0x20_0000_0000_0000 {
        let d = excess_bits(n / 2);
        lemma_excess_bits_bounds(n / 2);
        lemma_pow2_unfold(53 + d + 1);
        lemma_pow2_unfold(52 + d + 1);
    }
}

/// Rounding n / 2^d to the nearest integer moves it by half at most.
proof fn lemma_round_half_even_error(n: nat, d: nat)
    ensures
        -pow2(d) <= 2 * (round_half_even(n, d) * pow2(d) - n) <= pow2(d),
        n % pow2(d) == 0 ==> round_half_even(n, d) * pow2(d) == n,
{
    let q = pow2(d) as int;
    lemma_pow2_pos(d);
    lemma_fundamental_div_mod(n as int, q);
    lemma_mod_bound(n as int, q);
    let quotient = n as int / q;
    lemma_mul_is_commutative(q, quotient);
    lemma_mul_is_distributive_add_other_way(q, quotient, 1);
}

/// Rounding s / 2^j with ties going up moves it up by half at most and
/// down by less than half; it moves it up by half exactly where s / 2^j
/// lies halfway between two integers.
proof fn lemma_round_half_up_error(s: nat, j: nat)
    requires
        j > 0,
    ensures
        -pow2(j) < 2 * (round_half_up(s, j) * pow2(j) - s) <= pow2(j),
        2 * (round_half_up(s, j) * pow2(j) - s) == pow2(j) <==> 2 * (s % pow2(j)) == pow2(j),
{
    let w = pow2(j) as int;
    let h = pow2((j - 1) as nat) as int;
    lemma_pow2_pos(j);
    lemma_pow2_pos((j - 1) as nat);
    lemma_pow2_unfold(j);
    assert(w == 2 * h);
    let m = round_half_up(s, j) as int;
    let x = 2 * s + w;
    lemma_fundamental_div_mod(x, 2 * w);
    lemma_mod_bound(x, 2 * w);
    lemma_mul_is_associative(2, w, m);
    lemma_mul_is_commutative(w, m);
    assert(x == 2 * (m * w) + x % (2 * w));
    lemma_fundamental_div_mod(s as int, w);
    lemma_mod_bound(s as int, w);
    let low = s as int / w;
    lemma_mul_is_commutative(w, low);
    if 2 * (s % pow2(j)) == pow2(j) {
        // x = 2 * w * (low + 1)
        lemma_mul_is_distributive_add_other_way(w, low, 1);
        assert(x == 2 * ((low + 1) * w));
        lemma_mul_is_associative(2, low + 1, w);
        lemma_mul_is_commutative(2 * (low + 1), w);
        lemma_mul_is_commutative(2, low + 1);
        lemma_mul_is_associative(w, low + 1, 2);
        lemma_mul_is_commutative(w * (low + 1), 2);
        lemma_mul_is_commutative(w, low + 1);
        lemma_mul_is_associative(2, w, low + 1);
        assert(x == (2 * w) * (low + 1));
        lemma_fundamental_div_mod_converse_div(x, 2 * w, low + 1, 0);
        assert(m == low + 1);
    }
    if 2 * (m * w - s) == w {
        // s = w * (m - 1) + h
        lemma_mul_is_distributive_sub_other_way(w, m, 1);
        assert(s == (m - 1) * w + h);
        lemma_mul_is_commutative(m - 1, w);
        lemma_fundamental_div_mod_converse_mod(s as int, w, m - 1, h);
    }
}

/// How the two roundings add up. With s the rounded product, q and w the
/// powers of two that weigh the two roundings, `a` is twice the step of the
/// rounding to an integer and `r` twice the step of the rounding in double
/// precision.
proof fn lemma_steps_add_up(a: int, r: int, q: int, w: int)
    requires
        q > 0,
        w > 0,
        -w < a <= w,
        -q <= r <= q,
    ensures
        -(w * q) <= a * q + r <= w * q + q,
        a * q + r <= w * q <==> !(a == w && r > 0),
{
    lemma_mul_inequality(a, w, q);
    lemma_mul_inequality(-w + 1, a, q);
    lemma_mul_is_distributive_add_other_way(q, -w, 1);
    lemma_mul_unary_negation(w, q);
    assert((-w + 1) * q == -(w * q) + q);
    if a < w {
        lemma_mul_inequality(a, w - 1, q);
        lemma_mul_is_distributive_sub_other_way(q, w, 1);
        assert((w - 1) * q == w * q - q);
    }
}

/// A finite value whose rounded magnitude fits in 31 bits has a weight
/// below one after scaling: the rounding to an integer does happen.
proof fn lemma_small_magnitude_has_fraction(bits: u64)
    requires
        is_finite(bits),
        rounded_magnitude(bits) < 0x8000_0000,
    ensures
        product_exponent(bits) < 0,
        exponent(bits) < 0,
{
    lemma2_to64();
    lemma2_to64_rest();
    let exact = 1000 * significand(bits);
    if product_exponent(bits) >= 0 {
        assert(exponent_field(bits) != 0) by {
            let d = excess_bits(exact);
            lemma_excess_bits_bounds(exact);
            if d > 10 {
                lemma_pow2_strictly_increases(62, 52 + d);
            }
        }
        assert(1000 * 0x10_0000_0000_0000 <= exact < 1000 * 0x20_0000_0000_0000);
        if exact < pow2(62) {
            lemma_excess_bits(exact, 9);
            assert(exact as int / 512 >= 0x10_0000_0000_0000);
        } else {
            lemma_excess_bits(exact, 10);
            assert(exact as int / 1024 >= 0x10_0000_0000_0000);
        }
        assert(product_significand(bits) >= 0x10_0000_0000_0000);
        let e = product_exponent(bits) as nat;
        lemma_pow2_pos(e);
        lemma_mul_inequality(1, pow2(e) as int, product_significand(bits) as int);
        lemma_mul_is_commutative(product_significand(bits) as int, pow2(e) as int);
        assert(false);
    }
}

/// The count of thousandths of a finite value lies within half a
/// thousandth of the value, in exact arithmetic, unless the product with
/// 1000 was rounded up onto a tie in double precision. Even then it lies
/// within half a thousandth and half a step of that product. This holds
/// wherever the count is not cut to the 32-bit range.
pub proof fn lemma_thousandths_recover(bits: u64)
    requires
        is_finite(bits),
        rounded_magnitude(bits) < 0x8000_0000,
    ensures
        within_half_thousandth(bits, thousandths(bits)) <==> !rounds_up_onto_tie(bits),
        exponent(bits) < 0,
        ({
            let unit = pow2((-exponent(bits)) as nat);
            let step = pow2(excess_bits(1000 * significand(bits)));
            let distance = 2 * (thousandths(bits) * unit - 1000 * signed_significand(bits));
            -(unit + step) <= distance <= unit + step
        }),
{
    lemma_small_magnitude_has_fraction(bits);
    let exact = 1000 * significand(bits);
    let d = excess_bits(exact);
    let s = product_significand(bits);
    let j = (-product_exponent(bits)) as nat;
    let k = (-exponent(bits)) as nat;
    let q = pow2(d) as int;
    let w = pow2(j) as int;
    let p = pow2(k) as int;
    let magnitude = rounded_magnitude(bits) as int;
    assert(k == d + j);
    lemma_pow2_adds(j, d);
    assert(p == w * q);
    lemma_pow2_pos(d);
    lemma_pow2_pos(j);
    lemma_round_half_even_error(exact, d);
    lemma_round_half_up_error(s, j);
    let a = 2 * (magnitude * w - s);
    let r = 2 * (s * q - exact);
    lemma_steps_add_up(a, r, q, w);
    // magnitude * p - exact == (magnitude * w - s) * q + (s * q - exact)
    lemma_mul_is_associative(magnitude, w, q);
    lemma_mul_is_distributive_sub_other_way(q, magnitude * w, s as int);
    lemma_mul_is_associative(2, magnitude * w - s, q);
    assert(2 * (magnitude * p - exact) == a * q + r);
    let count = thousandths(bits);
    if is_negative(bits) {
        assert(count == -magnitude);
        lemma_mul_unary_negation(magnitude, p);
        assert(2 * (count * p - 1000 * signed_significand(bits)) == -(a * q + r));
    } else {
        assert(count == magnitude);
    }
}

/// The 8-bit biased exponent field of a single-precision pattern.
pub open spec fn single_exponent_field(bits: u32) -> nat {
    ((bits / 0x80_0000) % 0x100) as nat
}

/// The integer significand of a finite single-precision value.
pub open spec fn single_significand(bits: u32) -> nat {
    if single_exponent_field(bits) == 0 {
        (bits % 0x80_0000) as nat
    } else {
        (bits % 0x80_0000 + 0x80_0000) as nat
    }
}

/// The magnitude of a finite single-precision value in units of 2^-149,
/// the smallest magnitude that single precision has.
pub open spec fn single_magnitude(bits: u32) -> nat {
    if single_exponent_field(bits) == 0 {
        single_significand(bits)
    } else {
        single_significand(bits) * pow2((single_exponent_field(bits) - 1) as nat)
    }
}

/// A single-precision value is below the millionth exactly where it is
/// finite and its magnitude is smaller than 8796093 * 2^-43, the magnitude
/// that the pattern `MILLIONTH` stands for.
pub proof fn lemma_below_millionth_compares_magnitudes(bits: u32)
    ensures
        below_millionth(bits) <==> single_exponent_field(bits) != 0xFF && single_magnitude(bits)
            < 8796093 * pow2(106),
{
    lemma2_to64();
    lemma2_to64_rest();
    let field = single_exponent_field(bits);
    let s = single_significand(bits) as int;
    let unit = pow2(106) as int;
    lemma_pow2_pos(106);
    assert(magnitude_bits(bits) == field * 0x80_0000 + bits % 0x80_0000);
    if field == 0 {
        lemma_pow2_strictly_increases(23, 106);
        lemma_mul_inequality(1, 8796093, unit);
    } else if field < 107 {
        let e = (field - 1) as nat;
        if e < 105 {
            lemma_pow2_strictly_increases(e, 105);
        }
        lemma_pow2_unfold(106);
        // s * 2^e < 2^24 * 2^105 = 2^23 * 2^106
        lemma_pow2_pos(e);
        lemma_mul_strict_inequality(s, 0x100_0000, pow2(e) as int);
        lemma_mul_inequality(pow2(e) as int, pow2(105) as int, 0x100_0000);
        lemma_mul_is_commutative(0x100_0000, pow2(e) as int);
        lemma_mul_is_commutative(0x100_0000, pow2(105) as int);
        lemma_mul_is_associative(0x80_0000, 2, pow2(105) as int);
        lemma_mul_inequality(0x80_0000, 8796093, unit);
    } else if field == 107 {
        if s < 8796093 {
            lemma_mul_strict_inequality(s, 8796093, unit);
        } else {
            lemma_mul_inequality(8796093, s, unit);
        }
    } else if field < 0xFF {
        let e = (field - 1) as nat;
        lemma_pow2_strictly_increases(106, e);
        lemma_pow2_unfold(e);
        lemma_pow2_pos((e - 1) as nat);
        if e - 1 > 106 {
            lemma_pow2_strictly_increases(106, (e - 1) as nat);
        }
        // s * 2^e >= 2^23 * 2 * 2^(e-1) >= 2^24 * 2^106
        lemma_mul_inequality(0x80_0000, s, pow2(e) as int);
        lemma_mul_is_associative(0x80_0000, 2, pow2((e - 1) as nat) as int);
        lemma_mul_inequality(unit, pow2((e - 1) as nat) as int, 0x100_0000);
        lemma_mul_is_commutative(0x100_0000, unit);
        lemma_mul_is_commutative(0x100_0000, pow2((e - 1) as nat) as int);
        lemma_mul_strict_inequality(8796093, 0x100_0000, unit);
    }
}

} // verus!
