//! IEEE 754 binary64 numbers, handled by their bit patterns.
//!
//! A pattern holds a sign bit, an eleven-bit exponent field and a
//! fifty-two-bit fraction field. The order of two numbers is defined here
//! from the values they denote and computed from the patterns alone.

use vstd::prelude::*;
use vstd::arithmetic::power2::pow2;
use vstd::arithmetic::power2::lemma_pow2_pos;
use vstd::arithmetic::power2::lemma_pow2_unfold;
use vstd::arithmetic::power2::lemma_pow2_strictly_increases;

verus! {

/// The sign bit of a pattern.
pub const SIGN_BIT: u64 = 0x8000_0000_0000_0000;

/// The pattern of positive infinity; every larger magnitude is a NaN.
pub const INFINITY: u64 = 0x7ff0_0000_0000_0000;

/// The weight of the implicit leading bit: two to the power fifty-two.
pub const HIDDEN_BIT: u64 = 0x0010_0000_0000_0000;

/// The pattern of positive zero.
pub const ZERO: u64 = 0;

/// The pattern of one.
pub const ONE: u64 = 0x3ff0_0000_0000_0000;

/// The pattern of minus one.
pub const MINUS_ONE: u64 = 0xbff0_0000_0000_0000;

/// The pattern of the binary64 number nearest to pi.
pub const PI: u64 = 0x4009_21fb_5444_2d18;

/// The pattern of the binary64 number nearest to minus pi.
pub const MINUS_PI: u64 = 0xc009_21fb_5444_2d18;

/// Whether the sign bit is set.
pub open spec fn is_negative(bits: u64) -> bool {
    bits >= SIGN_BIT
}

/// The pattern without its sign bit.
pub open spec fn magnitude(bits: u64) -> nat {
    if bits >= SIGN_BIT {
        (bits - SIGN_BIT) as nat
    } else {
        bits as nat
    }
}

/// Whether the pattern denotes no number.
pub open spec fn is_nan(bits: u64) -> bool {
    magnitude(bits) > INFINITY
}

/// The exponent field.
pub open spec fn exponent(bits: u64) -> nat {
    magnitude(bits) / (HIDDEN_BIT as nat)
}

/// The fraction field.
pub open spec fn fraction(bits: u64) -> nat {
    magnitude(bits) % (HIDDEN_BIT as nat)
}

/// The absolute value that the pattern denotes, in units of the smallest
/// positive binary64 number (two to the power minus 1074).
///
/// Subnormal numbers count their fraction; normal numbers add the implicit
/// leading bit and scale by the exponent. Infinity is given the value that
/// the same rule yields one binade above the largest finite number, which
/// places it above all of them.
pub open spec fn scaled_magnitude(bits: u64) -> nat {
    if exponent(bits) == 0 {
        fraction(bits)
    } else {
        (HIDDEN_BIT as nat + fraction(bits)) * pow2((exponent(bits) - 1) as nat)
    }
}

/// The signed value that the pattern denotes, in the same units. Both zeros
/// denote zero.
pub open spec fn scaled_value(bits: u64) -> int {
    if is_negative(bits) {
        -(scaled_magnitude(bits) as int)
    } else {
        scaled_magnitude(bits) as int
    }
}

/// `a < b` as binary64 numbers: neither is a NaN and the value of `a` is
/// below the value of `b`.
pub open spec fn lt(a: u64, b: u64) -> bool {
    !is_nan(a) && !is_nan(b) && scaled_value(a) < scaled_value(b)
}

/// `a <= b` as binary64 numbers: neither is a NaN and the value of `a` is
/// not above the value of `b`.
pub open spec fn le(a: u64, b: u64) -> bool {
    !is_nan(a) && !is_nan(b) && scaled_value(a) <= scaled_value(b)
}

/// The value grows strictly with the magnitude bits: patterns of one sign
/// are ordered as the unsigned integers that they are.
pub proof fn lemma_magnitude_orders_value(a: u64, b: u64)
    requires
        magnitude(a) < magnitude(b),
    ensures
        scaled_magnitude(a) < scaled_magnitude(b),
{
    let h: nat = HIDDEN_BIT as nat;
    let ea: nat = exponent(a);
    let eb: nat = exponent(b);
    let fa: nat = fraction(a);
    let fb: nat = fraction(b);
    assert(magnitude(a) == h * ea + fa && fa < h) by {
        vstd::arithmetic::div_mod::lemma_fundamental_div_mod(magnitude(a) as int, h as int);
    }
    assert(magnitude(b) == h * eb + fb && fb < h) by {
        vstd::arithmetic::div_mod::lemma_fundamental_div_mod(magnitude(b) as int, h as int);
    }
    assert(ea <= eb) by (nonlinear_arith)
        requires
            h * ea + fa < h * eb + fb,
            fa < h,
            fb < h,
    ;
    if ea == eb {
        if ea > 0 {
            let p: nat = pow2((ea - 1) as nat);
            lemma_pow2_pos((ea - 1) as nat);
            assert((h + fa) * p < (h + fb) * p) by (nonlinear_arith)
                requires
                    fa < fb,
                    p > 0,
            ;
        }
    } else {
        let q: nat = pow2((eb - 1) as nat);
        lemma_pow2_pos((eb - 1) as nat);
        if ea == 0 {
            assert(fa < (h + fb) * q) by (nonlinear_arith)
                requires
                    fa < h,
                    q > 0,
            ;
        } else {
            let p: nat = pow2((ea - 1) as nat);
            lemma_pow2_pos((ea - 1) as nat);
            lemma_pow2_unfold(ea);
            if ea < eb - 1 {
                lemma_pow2_strictly_increases(ea, (eb - 1) as nat);
            }
            assert(2 * p <= q);
            assert((h + fa) * p < (h + fb) * q) by (nonlinear_arith)
                requires
                    fa < h,
                    p > 0,
                    2 * p <= q,
            ;
        }
    }
}

/// Only the two zero patterns denote zero.
pub proof fn lemma_zero_magnitude(bits: u64)
    ensures
        scaled_magnitude(bits) == 0 <==> magnitude(bits) == 0,
{
    let h: nat = HIDDEN_BIT as nat;
    vstd::arithmetic::div_mod::lemma_fundamental_div_mod(magnitude(bits) as int, h as int);
    if exponent(bits) > 0 {
        let p: nat = pow2((exponent(bits) - 1) as nat);
        lemma_pow2_pos((exponent(bits) - 1) as nat);
        assert((h + fraction(bits)) * p > 0) by (nonlinear_arith)
            requires
                p > 0,
                h > 0,
        ;
        assert(h * exponent(bits) > 0) by (nonlinear_arith)
            requires
                h > 0,
                exponent(bits) > 0,
        ;
    }
}

/// The place of a pattern in the order of the numbers: its magnitude bits,
/// counted downwards from zero when the sign bit is set.
pub open spec fn rank(bits: u64) -> int {
    if is_negative(bits) {
        -(magnitude(bits) as int)
    } else {
        magnitude(bits) as int
    }
}

/// Two patterns denote values in the order of their ranks, so the order of
/// two numbers can be read off their patterns without any arithmetic on the
/// values.
pub proof fn lemma_order_by_rank(a: u64, b: u64)
    ensures
        scaled_value(a) < scaled_value(b) <==> rank(a) < rank(b),
        scaled_value(a) <= scaled_value(b) <==> rank(a) <= rank(b),
        scaled_value(a) == scaled_value(b) <==> rank(a) == rank(b),
{
    if magnitude(a) < magnitude(b) {
        lemma_magnitude_orders_value(a, b);
    }
    if magnitude(b) < magnitude(a) {
        lemma_magnitude_orders_value(b, a);
    }
    lemma_zero_magnitude(a);
    lemma_zero_magnitude(b);
}

/// The pattern `ONE` denotes the number one: 2 to the power 1074 units.
pub proof fn lemma_one_is_unit()
    ensures
        scaled_value(ONE) == pow2(1074),
        scaled_value(MINUS_ONE) == -(pow2(1074) as int),
        scaled_value(ZERO) == 0,
{
    vstd::arithmetic::power2::lemma2_to64_rest();
    vstd::arithmetic::power2::lemma_pow2_adds(52, 1022);
    assert(exponent(ONE) == 1023 && fraction(ONE) == 0);
    assert(exponent(MINUS_ONE) == 1023 && fraction(MINUS_ONE) == 0);
    assert(HIDDEN_BIT as nat == pow2(52));
}

/// The pattern `PI` denotes pi to fifteen decimal places, and `MINUS_PI`
/// the same number with the opposite sign.
pub proof fn lemma_pi_to_fifteen_places()
    ensures
        314_159_265_358_979 * pow2(1074) < 100_000_000_000_000 * scaled_value(PI),
        100_000_000_000_000 * scaled_value(PI) < 314_159_265_358_980 * pow2(1074),
        scaled_value(MINUS_PI) == -scaled_value(PI),
{
    vstd::arithmetic::power2::lemma2_to64_rest();
    vstd::arithmetic::power2::lemma_pow2_adds(51, 1023);
    lemma_pow2_pos(1023);
    let m: int = 0x19_21fb_5444_2d18;
    let unit: int = pow2(1023) as int;
    assert(exponent(PI) == 1024 && fraction(PI) == 0x9_21fb_5444_2d18);
    assert(exponent(MINUS_PI) == 1024 && fraction(MINUS_PI) == 0x9_21fb_5444_2d18);
    assert(scaled_value(PI) == m * unit);
    assert(pow2(1074) == 0x8_0000_0000_0000 * unit);
    assert(314_159_265_358_979 * (0x8_0000_0000_0000 * unit) < 100_000_000_000_000 * (m * unit))
        by (nonlinear_arith)
        requires
            unit > 0,
            m == 0x19_21fb_5444_2d18,
    ;
    assert(100_000_000_000_000 * (m * unit) < 314_159_265_358_980 * (0x8_0000_0000_0000 * unit))
        by (nonlinear_arith)
        requires
            unit > 0,
            m == 0x19_21fb_5444_2d18,
    ;
}

/// Whether the pattern denotes no number.
pub fn bits_are_nan(bits: u64) -> (r: bool)
    ensures
        r == is_nan(bits),
{
    let m: u64 = if bits >= SIGN_BIT { bits - SIGN_BIT } else { bits };
    m > INFINITY
}

/// Decides `a < b` on binary64 numbers from their patterns.
pub fn less_than(a: u64, b: u64) -> (r: bool)
    ensures
        r == lt(a, b),
{
    let a_neg: bool = a >= SIGN_BIT;
    let b_neg: bool = b >= SIGN_BIT;
    let am: u64 = if a_neg { a - SIGN_BIT } else { a };
    let bm: u64 = if b_neg { b - SIGN_BIT } else { b };
    proof {
        lemma_order_by_rank(a, b);
    }
    if bits_are_nan(a) || bits_are_nan(b) {
        false
    } else if a_neg {
        if b_neg { bm < am } else { am != 0 || bm != 0 }
    } else {
        if b_neg { false } else { am < bm }
    }
}

/// Decides `a <= b` on binary64 numbers from their patterns.
pub fn less_or_equal(a: u64, b: u64) -> (r: bool)
    ensures
        r == le(a, b),
{
    let a_neg: bool = a >= SIGN_BIT;
    let b_neg: bool = b >= SIGN_BIT;
    let am: u64 = if a_neg { a - SIGN_BIT } else { a };
    let bm: u64 = if b_neg { b - SIGN_BIT } else { b };
    proof {
        lemma_order_by_rank(a, b);
    }
    if bits_are_nan(a) || bits_are_nan(b) {
        false
    } else if a_neg {
        if b_neg { bm <= am } else { true }
    } else {
        if b_neg { am == 0 && bm == 0 } else { am <= bm }
    }
}

} // verus!
