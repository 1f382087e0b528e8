//! Comparisons and conversions of IEEE 754 numbers held as bit patterns.
//!
//! A finite number is modelled exactly, as a whole count of the smallest
//! positive number of its format.

use vstd::prelude::*;
#[allow(unused_imports)]
use vstd::arithmetic::power2::{lemma2_to64, lemma_pow2_adds, lemma_pow2_pos, lemma_pow2_strictly_increases, pow2};

verus! {

pub const F32_SIGN: u32 = 0x8000_0000;

pub const F32_INFINITY: u32 = 0x7F80_0000;

pub const F32_FRACTION: u32 = 0x80_0000;

pub const F64_SIGN: u64 = 0x8000_0000_0000_0000;

pub const F64_INFINITY: u64 = 0x7FF0_0000_0000_0000;

pub const F64_FRACTION: u64 = 0x10_0000_0000_0000;

/// A magnitude with biased exponent `e` and fraction `m`, where `one` is the
/// implicit leading bit, in units of the smallest positive number.
pub open spec fn units(e: nat, m: nat, one: nat) -> nat {
    if e == 0 {
        m
    } else {
        (one + m) * pow2((e - 1) as nat)
    }
}

/// A magnitude's pattern, sign bit cleared, in units of the smallest positive
/// number.
pub open spec fn magnitude_units(pattern: nat, one: nat) -> nat {
    units(pattern / one, pattern % one, one)
}

pub open spec fn f32_magnitude(b: u32) -> nat {
    (if b >= F32_SIGN {
        b - F32_SIGN
    } else {
        b as int
    }) as nat
}

pub open spec fn f64_magnitude(b: u64) -> nat {
    (if b >= F64_SIGN {
        b - F64_SIGN
    } else {
        b as int
    }) as nat
}

/// Not a number.
pub open spec fn f32_nan(b: u32) -> bool {
    f32_magnitude(b) > F32_INFINITY
}

pub open spec fn f64_nan(b: u64) -> bool {
    f64_magnitude(b) > F64_INFINITY
}

/// Neither infinite nor not a number.
pub open spec fn f32_finite(b: u32) -> bool {
    f32_magnitude(b) < F32_INFINITY
}

pub open spec fn f64_finite(b: u64) -> bool {
    f64_magnitude(b) < F64_INFINITY
}

/// The value in units of the smallest positive number; an infinity comes out
/// beyond every finite value.
pub open spec fn f32_value(b: u32) -> int {
    let v = magnitude_units(f32_magnitude(b), F32_FRACTION as nat) as int;
    if b >= F32_SIGN {
        -v
    } else {
        v
    }
}

pub open spec fn f64_value(b: u64) -> int {
    let v = magnitude_units(f64_magnitude(b), F64_FRACTION as nat) as int;
    if b >= F64_SIGN {
        -v
    } else {
        v
    }
}

/// `a < b`, false where either is not a number.
pub open spec fn f32_less(a: u32, b: u32) -> bool {
    !f32_nan(a) && !f32_nan(b) && f32_value(a) < f32_value(b)
}

pub open spec fn f64_less(a: u64, b: u64) -> bool {
    !f64_nan(a) && !f64_nan(b) && f64_value(a) < f64_value(b)
}

/// `a <= b`, false where either is not a number.
pub open spec fn f32_at_most(a: u32, b: u32) -> bool {
    !f32_nan(a) && !f32_nan(b) && f32_value(a) <= f32_value(b)
}

pub open spec fn f64_at_most(a: u64, b: u64) -> bool {
    !f64_nan(a) && !f64_nan(b) && f64_value(a) <= f64_value(b)
}

proof fn units_grow(p: nat, q: nat, one: nat)
    requires
        one > 0,
        p < q,
    ensures
        magnitude_units(p, one) < magnitude_units(q, one),
{
    let e1 = p / one;
    let m1 = p % one;
    let e2 = q / one;
    let m2 = q % one;
    assert(p == e1 * one + m1 && q == e2 * one + m2 && m1 < one && m2 < one) by (nonlinear_arith)
        requires
            one > 0,
            e1 == p / one,
            m1 == p % one,
            e2 == q / one,
            m2 == q % one,
    ;
    if e1 > e2 {
        assert(e1 * one >= e2 * one + one) by (nonlinear_arith)
            requires
                e1 >= e2 + 1,
        ;
    } else if e1 == e2 {
        assert(m1 < m2);
        if e1 > 0 {
            let w = pow2((e1 - 1) as nat);
            lemma_pow2_pos((e1 - 1) as nat);
            assert((one + m1) * w < (one + m2) * w) by (nonlinear_arith)
                requires
                    m1 < m2,
                    w > 0,
            ;
        }
    } else {
        let w2 = pow2((e2 - 1) as nat);
        lemma_pow2_pos((e2 - 1) as nat);
        assert((one + m2) * w2 >= one * w2) by (nonlinear_arith);
        if e1 == 0 {
            assert(one * w2 >= one) by (nonlinear_arith)
                requires
                    w2 >= 1,
            ;
        } else {
            let w1 = pow2((e1 - 1) as nat);
            lemma_pow2_pos((e1 - 1) as nat);
            vstd::arithmetic::power2::lemma_pow2_unfold(e1);
            assert(pow2(e1) == 2 * w1);
            if e1 < e2 - 1 {
                lemma_pow2_strictly_increases(e1, (e2 - 1) as nat);
            }
            assert(w2 >= 2 * w1);
            assert((one + m1) * w1 < one * w2) by (nonlinear_arith)
                requires
                    m1 < one,
                    w1 > 0,
                    w2 >= 2 * w1,
            ;
        }
    }
}

proof fn units_of_zero(one: nat)
    requires
        one > 0,
    ensures
        magnitude_units(0, one) == 0,
{
    assert(0nat / one == 0 && 0nat % one == 0) by (nonlinear_arith)
        requires
            one > 0,
    ;
}

/// The order of the patterns is the order of the values.
proof fn pattern_order(p: nat, q: nat, one: nat)
    requires
        one > 0,
    ensures
        magnitude_units(p, one) < magnitude_units(q, one) <==> p < q,
        magnitude_units(p, one) == 0 <==> p == 0,
{
    units_of_zero(one);
    if p < q {
        units_grow(p, q, one);
    } else if q < p {
        units_grow(q, p, one);
    }
    if p > 0 {
        units_grow(0, p, one);
    }
}

/// Sign-and-magnitude pattern as a signed integer with the same order.
fn f32_key(b: u32) -> (k: i64)
    ensures
        k == (if b >= F32_SIGN {
            -(f32_magnitude(b) as int)
        } else {
            f32_magnitude(b) as int
        }),
{
    if b >= F32_SIGN {
        -((b - F32_SIGN) as i64)
    } else {
        b as i64
    }
}

fn f64_key(b: u64) -> (k: i128)
    ensures
        k == (if b >= F64_SIGN {
            -(f64_magnitude(b) as int)
        } else {
            f64_magnitude(b) as int
        }),
{
    if b >= F64_SIGN {
        -((b - F64_SIGN) as i128)
    } else {
        b as i128
    }
}

pub fn f32_is_nan(b: u32) -> (r: bool)
    ensures
        r == f32_nan(b),
{
    if b >= F32_SIGN {
        b - F32_SIGN > F32_INFINITY
    } else {
        b > F32_INFINITY
    }
}

pub fn f64_is_nan(b: u64) -> (r: bool)
    ensures
        r == f64_nan(b),
{
    if b >= F64_SIGN {
        b - F64_SIGN > F64_INFINITY
    } else {
        b > F64_INFINITY
    }
}

pub fn f32_is_finite(b: u32) -> (r: bool)
    ensures
        r == f32_finite(b),
{
    if b >= F32_SIGN {
        b - F32_SIGN < F32_INFINITY
    } else {
        b < F32_INFINITY
    }
}

pub fn f64_is_finite(b: u64) -> (r: bool)
    ensures
        r == f64_finite(b),
{
    if b >= F64_SIGN {
        b - F64_SIGN < F64_INFINITY
    } else {
        b < F64_INFINITY
    }
}

proof fn f32_order(a: u32, b: u32)
    ensures
        f32_value(a) < f32_value(b) <==> (if a >= F32_SIGN {
            -(f32_magnitude(a) as int)
        } else {
            f32_magnitude(a) as int
        }) < (if b >= F32_SIGN {
            -(f32_magnitude(b) as int)
        } else {
            f32_magnitude(b) as int
        }),
{
    pattern_order(f32_magnitude(a), f32_magnitude(b), F32_FRACTION as nat);
    pattern_order(f32_magnitude(b), f32_magnitude(a), F32_FRACTION as nat);
}

proof fn f64_order(a: u64, b: u64)
    ensures
        f64_value(a) < f64_value(b) <==> (if a >= F64_SIGN {
            -(f64_magnitude(a) as int)
        } else {
            f64_magnitude(a) as int
        }) < (if b >= F64_SIGN {
            -(f64_magnitude(b) as int)
        } else {
            f64_magnitude(b) as int
        }),
{
    pattern_order(f64_magnitude(a), f64_magnitude(b), F64_FRACTION as nat);
    pattern_order(f64_magnitude(b), f64_magnitude(a), F64_FRACTION as nat);
}

pub fn f32_lt(a: u32, b: u32) -> (r: bool)
    ensures
        r == f32_less(a, b),
{
    proof {
        f32_order(a, b);
    }
    !f32_is_nan(a) && !f32_is_nan(b) && f32_key(a) < f32_key(b)
}

pub fn f64_lt(a: u64, b: u64) -> (r: bool)
    ensures
        r == f64_less(a, b),
{
    proof {
        f64_order(a, b);
    }
    !f64_is_nan(a) && !f64_is_nan(b) && f64_key(a) < f64_key(b)
}

pub fn f32_le(a: u32, b: u32) -> (r: bool)
    ensures
        r == f32_at_most(a, b),
{
    proof {
        f32_order(b, a);
    }
    !f32_is_nan(a) && !f32_is_nan(b) && f32_key(a) <= f32_key(b)
}

pub fn f64_le(a: u64, b: u64) -> (r: bool)
    ensures
        r == f64_at_most(a, b),
{
    proof {
        f64_order(b, a);
    }
    !f64_is_nan(a) && !f64_is_nan(b) && f64_key(a) <= f64_key(b)
}

/// The exponent that gives the fraction's last bit the value one.
pub const F32_UNIT_EXPONENT: u32 = 150;

/// From this exponent on a magnitude is at least two to the thirty-first.
pub const F32_I32_LIMIT: u32 = 158;

/// A number rounded toward zero, held to the range of `i32`; zero where it is
/// not a number.
pub open spec fn f32_as_i32(b: u32) -> i32 {
    let mag = f32_magnitude(b);
    let e = mag / (F32_FRACTION as nat);
    let sig = F32_FRACTION + mag % (F32_FRACTION as nat);
    let whole: int = if e >= F32_UNIT_EXPONENT {
        sig * pow2((e - F32_UNIT_EXPONENT) as nat)
    } else {
        sig / (pow2((F32_UNIT_EXPONENT - e) as nat) as int)
    };
    let signed = if b >= F32_SIGN {
        -whole
    } else {
        whole
    };
    if f32_nan(b) {
        0
    } else if signed > i32::MAX {
        i32::MAX
    } else if signed < i32::MIN {
        i32::MIN
    } else {
        signed as i32
    }
}

proof fn pow2_small()
    ensures
        pow2(0) == 1,
        pow2(1) == 2,
        pow2(2) == 4,
        pow2(3) == 8,
        pow2(4) == 16,
        pow2(5) == 32,
        pow2(6) == 64,
        pow2(7) == 128,
        pow2(8) == 256,
        pow2(24) == 0x100_0000,
{
    vstd::arithmetic::power2::lemma2_to64();
}

/// Saturating conversion to `i32`, as Rust's `as` does it.
pub fn f32_to_i32(b: u32) -> (r: i32)
    ensures
        r == f32_as_i32(b),
{
    if f32_is_nan(b) {
        return 0;
    }
    let negative: bool = b >= F32_SIGN;
    let mag: u32 = if negative {
        b - F32_SIGN
    } else {
        b
    };
    let e: u32 = mag / F32_FRACTION;
    let sig: u32 = F32_FRACTION + mag % F32_FRACTION;
    proof {
        pow2_small();
    }
    if e >= F32_I32_LIMIT {
        proof {
            let k = (e - F32_UNIT_EXPONENT) as nat;
            if k > 8 {
                lemma_pow2_strictly_increases(8, k);
            }
            assert(sig * pow2(k) >= 0x8000_0000) by (nonlinear_arith)
                requires
                    sig >= 0x80_0000,
                    pow2(k) >= 256,
            ;
        }
        if negative {
            return i32::MIN;
        }
        return i32::MAX;
    }
    if e >= F32_UNIT_EXPONENT {
        let k: u32 = e - F32_UNIT_EXPONENT;
        let w: i64 = if k == 0 {
            1
        } else if k == 1 {
            2
        } else if k == 2 {
            4
        } else if k == 3 {
            8
        } else if k == 4 {
            16
        } else if k == 5 {
            32
        } else if k == 6 {
            64
        } else {
            128
        };
        assert(w == pow2(k as nat));
        assert(sig * w <= 0x7fff_ff80) by (nonlinear_arith)
            requires
                sig <= 0xff_ffff,
                0 < w <= 128,
        ;
        assert(sig * w >= 0) by (nonlinear_arith)
            requires
                w > 0,
        ;
        let v: i64 = (sig as i64) * w;
        if negative {
            (-v) as i32
        } else {
            v as i32
        }
    } else {
        let k: u32 = F32_UNIT_EXPONENT - e;
        let mut v: u32 = sig;
        proof {
            vstd::arithmetic::div_mod::lemma_div_basics(sig as int);
        }
        let mut done: u32 = 0;
        while done < k && done < 24
            invariant
                done <= k,
                done <= 24,
                sig <= 0xff_ffff,
                v <= 0xff_ffff,
                v == (sig as int) / (pow2(done as nat) as int),
            decreases 24 - done,
        {
            proof {
                lemma_pow2_pos(done as nat);
                vstd::arithmetic::power2::lemma_pow2_unfold((done + 1) as nat);
                vstd::arithmetic::div_mod::lemma_div_denominator(
                    sig as int,
                    pow2(done as nat) as int,
                    2,
                );
                assert(pow2((done + 1) as nat) == pow2(done as nat) * 2);
            }
            v = v / 2;
            done = done + 1;
        }
        proof {
            if done < k {
                lemma_pow2_strictly_increases(24, k as nat);
                assert(v == 0) by {
                    vstd::arithmetic::div_mod::lemma_basic_div(sig as int, pow2(24) as int);
                }
                vstd::arithmetic::div_mod::lemma_basic_div(sig as int, pow2(k as nat) as int);
            }
        }
        if negative {
            -(v as i32)
        } else {
            v as i32
        }
    }
}

/// The value of the smallest positive number's reciprocal, in doublings.
pub const F32_ONE_EXPONENT: u32 = 149;

/// The number that is exactly `n`.
pub open spec fn is_whole(b: u32, n: nat) -> bool {
    &&& b < F32_INFINITY
    &&& f32_value(b) == n * pow2(F32_ONE_EXPONENT as nat)
}

/// The pattern of a whole number.
pub open spec fn f32_of_whole(n: nat) -> u32 {
    choose|b: u32| is_whole(b, n)
}

/// A whole number has one pattern.
pub proof fn whole_pattern_is_unique(b: u32, n: nat)
    requires
        is_whole(b, n),
    ensures
        b == f32_of_whole(n),
{
    let c = f32_of_whole(n);
    pattern_order(b as nat, c as nat, F32_FRACTION as nat);
    pattern_order(c as nat, b as nat, F32_FRACTION as nat);
}

/// A whole number as floating point; exact below two to the twenty-fourth.
pub fn whole_to_f32(n: u32) -> (b: u32)
    requires
        n < 0x100_0000,
    ensures
        is_whole(b, n as nat),
        b == f32_of_whole(n as nat),
{
    if n == 0 {
        proof {
            units_of_zero(F32_FRACTION as nat);
            whole_pattern_is_unique(0, 0);
        }
        return 0;
    }
    let mut m: u32 = n;
    let mut e: u32 = F32_UNIT_EXPONENT;
    proof {
        vstd::arithmetic::power2::lemma2_to64();
    }
    while m < F32_FRACTION
        invariant
            0 < m < 0x100_0000,
            m as nat * pow2((e - 1) as nat) == n as nat * pow2(149),
            127 <= e <= 150,
            m >= pow2((150 - e) as nat),
        decreases e,
    {
        proof {
            let k = (150 - e) as nat;
            vstd::arithmetic::power2::lemma2_to64();
            if k >= 23 {
                if k > 23 {
                    lemma_pow2_strictly_increases(23, k);
                }
                assert(false);
            }
            vstd::arithmetic::power2::lemma_pow2_unfold((k + 1) as nat);
            vstd::arithmetic::power2::lemma_pow2_unfold((e - 1) as nat);
            let w = pow2((e - 2) as nat);
            assert(m as nat * (2 * w) == (2 * m) as nat * w) by (nonlinear_arith);
        }
        m = m * 2;
        e = e - 1;
    }
    let b: u32 = e * F32_FRACTION + (m - F32_FRACTION);
    proof {
        let one = F32_FRACTION as nat;
        assert(b as nat / one == e && b as nat % one == m - F32_FRACTION);
        assert(units(e as nat, (m - F32_FRACTION) as nat, one) == m as nat * pow2((e - 1) as nat));
        whole_pattern_is_unique(b, n as nat);
    }
    b
}

// Laws.

/// Where a pattern stands among the numbers: a positive one by its bits, a
/// negative one by its other bits, mirrored; both zeros stand together.
pub open spec fn f32_rank(b: u32) -> int {
    if b < 0x8000_0000 {
        b as int
    } else {
        0x8000_0000 - b
    }
}

pub open spec fn f64_rank(b: u64) -> int {
    if b < 0x8000_0000_0000_0000 {
        b as int
    } else {
        0x8000_0000_0000_0000 - b
    }
}

/// Beyond either infinity there are no numbers.
pub open spec fn f32_ranked(b: u32) -> bool {
    -0x7F80_0000 <= f32_rank(b) <= 0x7F80_0000
}

pub open spec fn f64_ranked(b: u64) -> bool {
    -0x7FF0_0000_0000_0000 <= f64_rank(b) <= 0x7FF0_0000_0000_0000
}

/// Two single-precision numbers are ordered as their patterns are; what is not
/// a number is neither less than, nor at most, anything.
pub proof fn f32_order_is_by_rank(a: u32, b: u32)
    ensures
        f32_less(a, b) <==> f32_ranked(a) && f32_ranked(b) && f32_rank(a) < f32_rank(b),
        f32_at_most(a, b) <==> f32_ranked(a) && f32_ranked(b) && f32_rank(a) <= f32_rank(b),
        f32_nan(a) <==> !f32_ranked(a),
        f32_finite(a) <==> -0x7F80_0000 < f32_rank(a) < 0x7F80_0000,
{
    f32_order(a, b);
    f32_order(b, a);
}

/// Likewise in double precision.
pub proof fn f64_order_is_by_rank(a: u64, b: u64)
    ensures
        f64_less(a, b) <==> f64_ranked(a) && f64_ranked(b) && f64_rank(a) < f64_rank(b),
        f64_at_most(a, b) <==> f64_ranked(a) && f64_ranked(b) && f64_rank(a) <= f64_rank(b),
        f64_nan(a) <==> !f64_ranked(a),
        f64_finite(a) <==> -0x7FF0_0000_0000_0000 < f64_rank(a) < 0x7FF0_0000_0000_0000,
{
    f64_order(a, b);
    f64_order(b, a);
}

/// The pattern of a whole number of `e + 1` binary digits: the exponent counts
/// the digits, the fraction holds those after the first.
pub proof fn whole_number_has_its_pattern(n: nat, e: nat)
    requires
        e <= 23,
        pow2(e) <= n < pow2(e + 1),
    ensures
        f32_of_whole(n) == (126 + e) * 0x80_0000 + n * pow2((23 - e) as nat),
        is_whole(f32_of_whole(n), n),
{
    let k = (23 - e) as nat;
    let f = n * pow2(k);
    lemma_pow2_adds(e, k);
    lemma_pow2_adds(e + 1, k);
    lemma_pow2_adds(k, 126 + e);
    lemma2_to64();
    lemma_pow2_pos(k);
    assert(0x80_0000 <= f < 0x100_0000) by (nonlinear_arith)
        requires
            f == n * pow2(k),
            pow2(e) <= n < pow2(e + 1),
            pow2(e) * pow2(k) == 0x80_0000,
            pow2(e + 1) * pow2(k) == 0x100_0000,
            pow2(k) > 0,
    ;
    let b = ((126 + e) * 0x80_0000 + f) as u32;
    assert(b == (127 + e) * 0x80_0000 + (f - 0x80_0000));
    assert(b as nat / 0x80_0000 == 127 + e);
    assert(b as nat % 0x80_0000 == f - 0x80_0000);
    assert(f * pow2(126 + e) == n * pow2(149)) by (nonlinear_arith)
        requires
            f == n * pow2(k),
            pow2(k) * pow2(126 + e) == pow2(149),
    ;
    whole_pattern_is_unique(b, n);
}

/// Zero has the pattern of no bits.
pub proof fn whole_pattern_is_zero()
    ensures
        f32_of_whole(0) == 0,
        is_whole(0, 0),
{
    units_of_zero(0x80_0000);
    whole_pattern_is_unique(0, 0);
}

/// Every byte is exactly a floating-point number.
pub proof fn bytes_are_whole(n: nat)
    requires
        n < 0x100,
    ensures
        is_whole(f32_of_whole(n), n),
{
    lemma2_to64();
    if n == 0 {
        whole_pattern_is_zero();
    } else if n < 2 {
        whole_number_has_its_pattern(n, 0);
    } else if n < 4 {
        whole_number_has_its_pattern(n, 1);
    } else if n < 8 {
        whole_number_has_its_pattern(n, 2);
    } else if n < 0x10 {
        whole_number_has_its_pattern(n, 3);
    } else if n < 0x20 {
        whole_number_has_its_pattern(n, 4);
    } else if n < 0x40 {
        whole_number_has_its_pattern(n, 5);
    } else if n < 0x80 {
        whole_number_has_its_pattern(n, 6);
    } else {
        whole_number_has_its_pattern(n, 7);
    }
}

/// A whole number below two to the twenty-fourth, of either sign, becomes the
/// integer it is.
pub proof fn whole_number_becomes_its_integer(n: nat, e: nat)
    requires
        e <= 23,
        pow2(e) <= n < pow2(e + 1),
    ensures
        f32_as_i32(f32_of_whole(n)) == n,
        f32_as_i32((f32_of_whole(n) + 0x8000_0000) as u32) == -n,
{
    let k = (23 - e) as nat;
    let f = n * pow2(k);
    whole_number_has_its_pattern(n, e);
    lemma_pow2_adds(e, k);
    lemma_pow2_adds(e + 1, k);
    lemma2_to64();
    lemma_pow2_pos(k);
    assert(0x80_0000 <= f < 0x100_0000) by (nonlinear_arith)
        requires
            f == n * pow2(k),
            pow2(e) <= n < pow2(e + 1),
            pow2(e) * pow2(k) == 0x80_0000,
            pow2(e + 1) * pow2(k) == 0x100_0000,
            pow2(k) > 0,
    ;
    let b = f32_of_whole(n);
    assert(b == (127 + e) * 0x80_0000 + (f - 0x80_0000));
    assert(b as nat / 0x80_0000 == 127 + e);
    assert(b as nat % 0x80_0000 == f - 0x80_0000);
    assert(n < 0x100_0000) by {
        if e < 23 {
            lemma_pow2_strictly_increases(e + 1, 24);
        }
    }
    if e < 23 {
        vstd::arithmetic::div_mod::lemma_div_multiples_vanish(n as int, pow2(k) as int);
        assert(f as int == pow2(k) as int * n as int) by (nonlinear_arith)
            requires
                f == n * pow2(k),
        ;
        assert(f as int / pow2(k) as int == n);
    }
    let c = (b + 0x8000_0000) as u32;
    assert(f32_magnitude(b) == b as nat);
    assert(f32_magnitude(c) == b as nat);
    let sig = F32_FRACTION + f32_magnitude(b) % (F32_FRACTION as nat);
    assert(sig == f);
    let x = f32_magnitude(b) / (F32_FRACTION as nat);
    assert(x == 127 + e);
    if x >= F32_UNIT_EXPONENT {
        assert(e == 23 && k == 0);
        assert(pow2((x - F32_UNIT_EXPONENT) as nat) == 1);
        let one = pow2((x - F32_UNIT_EXPONENT) as nat);
        assert(sig * one == n) by (nonlinear_arith)
            requires
                sig == n * pow2(k),
                pow2(k) == 1,
                one == 1,
        ;
    } else {
        assert((F32_UNIT_EXPONENT - x) as nat == k);
        assert(sig / (pow2((F32_UNIT_EXPONENT - x) as nat) as int) == n);
    }
}

/// What is not a number becomes zero, and what lies beyond the integers
/// becomes the last of them: 2^31 and above the largest, -2^31 and below the
/// smallest.
pub proof fn far_numbers_are_held_to_the_range(b: u32)
    ensures
        !f32_ranked(b) ==> f32_as_i32(b) == 0,
        f32_ranked(b) && f32_rank(b) >= 0x4F00_0000 ==> f32_as_i32(b) == 0x7FFF_FFFF,
        f32_ranked(b) && f32_rank(b) <= -0x4F00_0000 ==> f32_as_i32(b) == -0x8000_0000,
{
    let mag = f32_magnitude(b);
    if f32_ranked(b) && mag >= 0x4F00_0000 {
        let e = mag / 0x80_0000;
        let sig = 0x80_0000 + mag % 0x80_0000;
        assert(e >= 158);
        lemma2_to64();
        let p = pow2((e - 150) as nat);
        if e > 158 {
            lemma_pow2_strictly_increases(8, (e - 150) as nat);
        }
        assert(sig * p >= 0x8000_0000) by (nonlinear_arith)
            requires
                sig >= 0x80_0000,
                p >= 0x100,
        ;
    }
}

} // verus!
