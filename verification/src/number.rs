//! Floating-point numbers carried as their IEEE 754 binary64 bit patterns.
//!
//! Sizes and coordinates are never computed with here: they are only tested
//! and compared, and both can be read off the bits.
use vstd::prelude::*;
use vstd::arithmetic::power2::lemma_pow2_pos;
use vstd::arithmetic::power2::lemma_pow2_strictly_increases;
use vstd::arithmetic::power2::lemma_pow2_unfold;
use vstd::arithmetic::power2::pow2;

verus! {

/// The bit pattern of negative zero, which is also the weight of the sign bit.
pub const SIGN: u64 = 0x8000_0000_0000_0000;

/// The bit pattern of positive infinity. Patterns above it, sign aside, are
/// not numbers.
pub const INFINITY: u64 = 0x7ff0_0000_0000_0000;

/// The bit pattern without its sign bit.
pub open spec fn magnitude(bits: u64) -> u64 {
    bits % SIGN
}

/// Neither infinite nor "not a number".
pub open spec fn finite(bits: u64) -> bool {
    magnitude(bits) < INFINITY
}

/// Not a number.
pub open spec fn not_a_number(bits: u64) -> bool {
    magnitude(bits) > INFINITY
}

/// Greater than zero and finite.
pub open spec fn positive_finite(bits: u64) -> bool {
    0 < bits < INFINITY
}

/// Equality of floating-point numbers: the two zeros are equal, and what is
/// not a number equals nothing.
pub open spec fn equal(a: u64, b: u64) -> bool {
    &&& !not_a_number(a)
    &&& !not_a_number(b)
    &&& a == b || (magnitude(a) == 0 && magnitude(b) == 0)
}

/// Tells whether the number is neither infinite nor "not a number".
pub fn is_finite(bits: u64) -> (r: bool)
    ensures
        r == finite(bits),
{
    bits % SIGN < INFINITY
}

/// Tells whether the number is finite and greater than zero.
pub fn is_positive_finite(bits: u64) -> (r: bool)
    ensures
        r == positive_finite(bits),
{
    0 < bits && bits < INFINITY
}

/// Compares two numbers as floating-point arithmetic does.
pub fn are_equal(a: u64, b: u64) -> (r: bool)
    ensures
        r == equal(a, b),
{
    let p: u64 = a % SIGN;
    let q: u64 = b % SIGN;
    p <= INFINITY && q <= INFINITY && (a == b || (p == 0 && q == 0))
}

/// The exponent field of the number.
pub open spec fn exponent(bits: u64) -> int {
    (bits as int % 0x8000_0000_0000_0000) / 0x10_0000_0000_0000
}

/// The fraction field of the number.
pub open spec fn fraction(bits: u64) -> int {
    bits as int % 0x10_0000_0000_0000
}

/// The absolute value of a finite number, in units of the least positive one.
pub open spec fn size(exponent: int, fraction: int) -> int {
    if exponent == 0 {
        fraction
    } else {
        (0x10_0000_0000_0000 + fraction) * pow2((exponent - 1) as nat)
    }
}

/// The value of a finite number, in units of the least positive one.
pub open spec fn value(bits: u64) -> int {
    if bits < 0x8000_0000_0000_0000 {
        size(exponent(bits), fraction(bits))
    } else {
        -size(exponent(bits), fraction(bits))
    }
}

proof fn lemma_sizes_grow(e: int, f: int, g: int, h: int)
    requires
        0 <= e,
        0 <= g,
        0 <= f < 0x10_0000_0000_0000,
        0 <= h < 0x10_0000_0000_0000,
        e < g || (e == g && f < h),
    ensures
        size(e, f) < size(g, h),
{
    let p = pow2((g - 1) as nat) as int;
    if g > 0 {
        lemma_pow2_pos((g - 1) as nat);
        assert((0x10_0000_0000_0000 + h) * p >= 0x10_0000_0000_0000 * p) by (nonlinear_arith)
            requires
                h >= 0,
                p > 0,
        ;
    }
    if e == g {
        if e > 0 {
            assert((0x10_0000_0000_0000 + f) * p < (0x10_0000_0000_0000 + h) * p) by (
            nonlinear_arith)
                requires
                    f < h,
                    p > 0,
            ;
        }
    } else if e > 0 {
        let q = pow2((e - 1) as nat) as int;
        lemma_pow2_pos((e - 1) as nat);
        lemma_pow2_unfold(e as nat);
        if e < g - 1 {
            lemma_pow2_strictly_increases(e as nat, (g - 1) as nat);
        }
        assert(2 * q <= p);
        assert((0x10_0000_0000_0000 + f) * q < 0x10_0000_0000_0000 * p) by (nonlinear_arith)
            requires
                f < 0x10_0000_0000_0000,
                q > 0,
                2 * q <= p,
        ;
    }
}

/// A number is finite unless its exponent is the greatest one, and then is not a
/// number unless its fraction is zero.
pub proof fn law_finite_numbers(bits: u64)
    ensures
        finite(bits) <==> exponent(bits) < 2047,
        not_a_number(bits) <==> exponent(bits) == 2047 && fraction(bits) != 0,
{
}

/// A number is positive and finite exactly if its value is greater than zero and
/// it has one.
pub proof fn law_positive_numbers(bits: u64)
    ensures
        positive_finite(bits) <==> exponent(bits) < 2047 && value(bits) > 0,
{
    let e = exponent(bits);
    let f = fraction(bits);
    if e > 0 || f > 0 {
        lemma_sizes_grow(0, 0, e, f);
    }
}

/// Finite numbers are equal exactly if their values are.
pub proof fn law_equal_numbers(a: u64, b: u64)
    requires
        exponent(a) < 2047,
        exponent(b) < 2047,
    ensures
        equal(a, b) <==> value(a) == value(b),
{
    let e = exponent(a);
    let f = fraction(a);
    let g = exponent(b);
    let h = fraction(b);
    if e < g || (e == g && f < h) {
        lemma_sizes_grow(e, f, g, h);
    }
    if g < e || (e == g && h < f) {
        lemma_sizes_grow(g, h, e, f);
    }
    if e > 0 || f > 0 {
        lemma_sizes_grow(0, 0, e, f);
    }
    if g > 0 || h > 0 {
        lemma_sizes_grow(0, 0, g, h);
    }
}

/// What is not a number equals nothing, and an infinite number itself alone.
pub proof fn law_equality_beyond_the_finite(a: u64, b: u64)
    requires
        exponent(a) == 2047,
    ensures
        fraction(a) != 0 ==> !equal(a, b) && !equal(b, a),
        fraction(a) == 0 ==> (equal(a, b) <==> a == b) && (equal(b, a) <==> a == b),
{
}

/// The tests of numbers go by their values.
pub proof fn law_tests_of_numbers(a: u64, b: u64, positive: bool, is_finite_number: bool, same: bool)
    requires
        call_ensures(is_positive_finite, (a,), positive),
        call_ensures(is_finite, (a,), is_finite_number),
        call_ensures(are_equal, (a, b), same),
    ensures
        is_finite_number <==> exponent(a) < 2047,
        positive <==> exponent(a) < 2047 && value(a) > 0,
        exponent(a) < 2047 && exponent(b) < 2047 ==> (same <==> value(a) == value(b)),
{
    law_finite_numbers(a);
    law_positive_numbers(a);
    if exponent(a) < 2047 && exponent(b) < 2047 {
        law_equal_numbers(a, b);
    }
}

} // verus!
