//! The LMSR pricing engine.
//!
//! Cost function, YES/NO prices, buy-cost and sell-proceeds calculators, and
//! the binary-search share solver, all over the fixed-point arithmetic of
//! [`crate::fixed_point`].  The transcendental pieces are a Padé(2,2)
//! rational approximation of the exponential and a Taylor series for the
//! logarithm after range reduction, combined through the factored
//! log-sum-exp form that keeps every exponent argument small.

use vstd::prelude::*;

use vstd::arithmetic::div_mod::{
    lemma_div_by_multiple, lemma_div_denominator, lemma_div_is_ordered, lemma_div_of0,
    lemma_div_is_ordered_by_denominator, lemma_div_pos_is_pos,
    lemma_fundamental_div_mod, lemma_mod_division_less_than_divisor, lemma_multiply_divide_lt,
};
use vstd::arithmetic::power2::{
    lemma2_to64, lemma2_to64_rest, lemma_pow2_adds, lemma_pow2_pos, lemma_pow2_strictly_increases,
    pow2,
};
use vstd::arithmetic::mul::{lemma_mul_inequality, lemma_mul_nonnegative, lemma_mul_upper_bound};

use crate::errors::ErrorCode;
use crate::fixed_point::{fixed_div, fixed_mul, fp_div, fp_mul, LN_2, MAX_EXP, MIN_B, PRECISION};

verus! {

// ------------------------------------------------------------------------
// Exponential: Padé(2,2) rational approximation
// ------------------------------------------------------------------------

/// The quadratic term `x^2 / 12` of the Padé approximant, in fixed point.
pub open spec fn exp_quad(x: int) -> int {
    (x * x / (PRECISION as int)) / 12
}

/// Numerator of the approximant: `1 + x/2 + x^2/12`.
pub open spec fn exp_num(x: int) -> int {
    PRECISION + x / 2 + exp_quad(x)
}

/// Denominator of the approximant: `1 - x/2 + x^2/12`.
pub open spec fn exp_den(x: int) -> int {
    PRECISION + exp_quad(x) - x / 2
}

/// What the fixed-point exponential returns on `0 <= x <= MAX_EXP`:
/// `(1 + x/2 + x^2/12) / (1 - x/2 + x^2/12)`.
pub open spec fn spec_exp(x: int) -> int {
    exp_num(x) * (PRECISION as int) / exp_den(x)
}

/// Range facts about the approximant on its domain.  The denominator is the
/// upward parabola `(x - 3)^2/12 + 1/4` (in real terms), so it stays above
/// a fifth of one; the value itself stays between 1 and 225.
pub proof fn lemma_exp_bounds(x: int)
    requires
        0 <= x <= MAX_EXP,
    ensures
        (PRECISION as int) / 5 <= exp_den(x),
        exp_den(x) <= exp_num(x),
        exp_num(x) <= 45 * (PRECISION as int),
        x * x / (PRECISION as int) <= 400 * (PRECISION as int),
        PRECISION <= spec_exp(x) <= 225 * (PRECISION as int),
{
    let p = PRECISION as int;
    let xx = x * x;
    let q = xx / p;
    let q12 = q / 12;
    let h = x / 2;

    assert(0 <= xx <= 400 * p * p) by (nonlinear_arith)
        requires
            p == 1_000_000_000,
            0 <= x <= 20 * p,
            xx == x * x,
    ;
    lemma_fundamental_div_mod(xx, p);
    lemma_mod_division_less_than_divisor(xx, p);
    lemma_fundamental_div_mod(q, 12);
    lemma_mod_division_less_than_divisor(q, 12);
    lemma_fundamental_div_mod(x, 2);
    lemma_mod_division_less_than_divisor(x, 2);

    // q <= 400 * p
    lemma_div_is_ordered(xx, 400 * p * p, p);
    lemma_div_by_multiple(400 * p, p);
    // q12 <= 400 * p / 12 and h <= 10 * p
    lemma_div_is_ordered(q, 400 * p, 12);
    lemma_div_is_ordered(x, 20 * p, 2);
    lemma_div_pos_is_pos(x, 2);
    lemma_div_pos_is_pos(xx, p);
    lemma_div_pos_is_pos(q, 12);

    // Denominator lower bound: 1 + x^2/12 - x/2 >= 1/5, the integer shadow
    // of (x - 3)^2/12 + 1/4 > 1/5.
    assert(p + q12 - h >= p / 5) by (nonlinear_arith)
        requires
            p == 1_000_000_000,
            0 <= x <= 20 * p,
            xx == x * x,
            xx == p * q + xx % p,
            0 <= xx % p < p,
            q == 12 * q12 + q % 12,
            0 <= q % 12 < 12,
            x == 2 * h + x % 2,
            0 <= x % 2 < 2,
    ;

    let num = exp_num(x);
    let den = exp_den(x);
    assert(den >= p / 5);
    assert(num - den == 2 * h);
    assert(den <= num);
    assert(num <= p + 10 * p + 400 * p / 12);

    // Value bounds: den <= num gives at least one; den >= p/5 caps it at 5*num.
    lemma_mul_inequality(den, num, p);
    lemma_div_is_ordered(den * p, num * p, den);
    lemma_div_by_multiple(p, den);
    assert(den * p == p * den) by (nonlinear_arith);
    assert(spec_exp(x) >= p);

    assert(num * p >= 0) by (nonlinear_arith)
        requires
            num >= 0,
            p >= 0,
    ;
    lemma_div_is_ordered_by_denominator(num * p, p / 5, den);
    assert(num * p == (5 * num) * (p / 5)) by (nonlinear_arith)
        requires
            p == 1_000_000_000,
    ;
    lemma_div_by_multiple(5 * num, p / 5);
    assert(spec_exp(x) <= 5 * num);
}

/// The fixed-point exponential.  Relies on nothing outside this crate; the
/// Padé(2,2) form is the mandated approximation for `0 <= x <= MAX_EXP`, and
/// anything above the domain is `ExponentTooLarge`.
pub fn fixed_exp(x: u64) -> (r: Result<u64, ErrorCode>)
    ensures
        x > MAX_EXP ==> r == Err::<u64, ErrorCode>(ErrorCode::ExponentTooLarge),
        x <= MAX_EXP ==> (r matches Ok(v) && v == spec_exp(x as int)),
{
    if x > MAX_EXP {
        return Err(ErrorCode::ExponentTooLarge);
    }
    proof {
        lemma_exp_bounds(x as int);
        assert((x as u128) * (x as u128) <= u128::MAX) by (nonlinear_arith);
    }
    let x2: u64 = ((x as u128) * (x as u128) / (PRECISION as u128)) as u64;
    let num: u64 = PRECISION + x / 2 + x2 / 12;
    let den: u64 = (PRECISION + x2 / 12) - x / 2;
    let r = fixed_div(num, den);
    proof {
        assert(num == exp_num(x as int));
        assert(den == exp_den(x as int));
        assert(fp_div(num as int, den as int) == spec_exp(x as int));
    }
    r
}

/// `e^(-x)` as `1 / e^x`, used by the factored log-sum-exp form.  On the
/// domain the result is at most one, because `e^x` is at least one.
pub fn fixed_exp_negative(x: u64) -> (r: Result<u64, ErrorCode>)
    ensures
        x > MAX_EXP ==> r == Err::<u64, ErrorCode>(ErrorCode::ExponentTooLarge),
        x <= MAX_EXP ==> (r matches Ok(v) && v == fp_div(PRECISION as int, spec_exp(x as int))
            && v <= PRECISION),
{
    let exp_x = match fixed_exp(x) {
        Ok(v) => v,
        Err(e) => {
            return Err(e);
        },
    };
    proof {
        let p = PRECISION as int;
        lemma_exp_bounds(x as int);
        assert(p * p >= 0) by (nonlinear_arith);
        lemma_div_is_ordered_by_denominator(p * p, p, exp_x as int);
        lemma_div_by_multiple(p, p);
    }
    fixed_div(PRECISION, exp_x)
}

// ------------------------------------------------------------------------
// Logarithm: Taylor series after range reduction
// ------------------------------------------------------------------------

/// The Taylor argument on [1, 2): `y = (x - 1) / (x + 1)` in fixed point.
pub open spec fn ln_y(x: int) -> int {
    (x - PRECISION) * (PRECISION as int) / (x + PRECISION)
}

/// What the fixed-point logarithm returns on [1, 2):
/// `2 * (y + y^3/3 + y^5/5)` with `y = (x - 1) / (x + 1)`.
pub open spec fn spec_ln_series(x: int) -> int {
    let y = ln_y(x);
    let y2 = fp_mul(y, y);
    let y3 = fp_mul(y2, y);
    let y5 = fp_mul(y3, y2);
    2 * (y + y3 / 3 + y5 / 5)
}

/// The logarithm on [1, 2]: the series below 2, the ln 2 constant exactly
/// at 2 (where range reduction hands the series a plain 1).
pub open spec fn spec_ln_12(x: int) -> int {
    if x == 2 * (PRECISION as int) {
        LN_2 as int
    } else {
        spec_ln_series(x)
    }
}

/// The argument after the halving loop of range reduction: repeated
/// halving until the value sits below 2.
pub open spec fn ln_halve(x: int) -> int
    decreases x,
{
    if x >= 2 * (PRECISION as int) {
        ln_halve(x / 2)
    } else {
        x
    }
}

/// How many halvings the reduction makes.
pub open spec fn ln_halve_count(x: int) -> int
    decreases x,
{
    if x >= 2 * (PRECISION as int) {
        1 + ln_halve_count(x / 2)
    } else {
        0
    }
}

/// The argument after the doubling loop of range reduction: repeated
/// doubling until the value reaches one half.
pub open spec fn ln_double(x: int) -> int
    decreases (PRECISION as int) - x,
{
    if 1 <= x && x < (PRECISION as int) / 2 {
        ln_double(2 * x)
    } else {
        x
    }
}

/// How many doublings the reduction makes.
pub open spec fn ln_double_count(x: int) -> int
    decreases (PRECISION as int) - x,
{
    if 1 <= x && x < (PRECISION as int) / 2 {
        1 + ln_double_count(2 * x)
    } else {
        0
    }
}

/// What the logarithm's Taylor step returns on [0.5, 1): the argument is
/// inverted into [1, 2] first, so `y = (1/x - 1) / (1/x + 1)`.
pub open spec fn spec_ln_series_inv(x: int) -> int {
    let inv = fp_div(PRECISION as int, x);
    let y = fp_div(inv - PRECISION, inv + PRECISION);
    let y2 = fp_mul(y, y);
    let y3 = fp_mul(y2, y);
    let y5 = fp_mul(y3, y2);
    2 * (y + y3 / 3 + y5 / 5)
}

/// On [1, 2) the Taylor argument stays below one third and the series value
/// stays between 0 and ln 2.
pub proof fn lemma_ln_series_bounds(x: int)
    requires
        PRECISION <= x < 2 * PRECISION,
    ensures
        0 <= ln_y(x) <= 333_333_333,
        0 <= spec_ln_series(x) <= LN_2,
{
    let p = PRECISION as int;
    let n = (x - p) * p;
    let d = x + p;
    let y = ln_y(x);
    assert(n >= 0) by (nonlinear_arith)
        requires
            x >= p,
            p > 0,
            n == (x - p) * p,
    ;
    lemma_div_pos_is_pos(n, d);
    assert(n < d * 333_333_334) by (nonlinear_arith)
        requires
            p == 1_000_000_000,
            p <= x < 2 * p,
            n == (x - p) * p,
            d == x + p,
    ;
    lemma_multiply_divide_lt(n, d, 333_333_334);

    let y2 = fp_mul(y, y);
    let y3 = fp_mul(y2, y);
    let y5 = fp_mul(y3, y2);

    lemma_mul_nonnegative(y, y);
    lemma_div_pos_is_pos(y * y, p);
    lemma_mul_upper_bound(y, 333_333_333, y, 333_333_333);
    assert(333_333_333 * 333_333_333 == 111_111_110_888_888_889int) by (nonlinear_arith);
    lemma_div_is_ordered(y * y, 111_111_110_888_888_889, p);
    assert(111_111_110_888_888_889int / 1_000_000_000 == 111_111_110) by (nonlinear_arith);

    lemma_mul_nonnegative(y2, y);
    lemma_div_pos_is_pos(y2 * y, p);
    lemma_mul_upper_bound(y2, 111_111_110, y, 333_333_333);
    assert(111_111_110 * 333_333_333 == 37_037_036_629_629_630int) by (nonlinear_arith);
    lemma_div_is_ordered(y2 * y, 37_037_036_629_629_630, p);
    assert(37_037_036_629_629_630int / 1_000_000_000 == 37_037_036) by (nonlinear_arith);

    lemma_mul_nonnegative(y3, y2);
    lemma_div_pos_is_pos(y3 * y2, p);
    lemma_mul_upper_bound(y3, 37_037_036, y2, 111_111_110);
    assert(37_037_036 * 111_111_110 == 4_115_226_181_069_960int) by (nonlinear_arith);
    lemma_div_is_ordered(y3 * y2, 4_115_226_181_069_960, p);
    assert(4_115_226_181_069_960int / 1_000_000_000 == 4_115_226) by (nonlinear_arith);

    lemma_div_is_ordered(y3, 37_037_036, 3);
    lemma_div_is_ordered(y5, 4_115_226, 5);
    lemma_div_pos_is_pos(y3, 3);
    lemma_div_pos_is_pos(y5, 5);
}

/// The fixed-point logarithm.  Fails with `InvalidInput` on zero.  The
/// argument is reduced into [0.5, 2.0) by repeated halving or doubling, the
/// Taylor series is applied there, and the powers of two are added back as
/// multiples of ln 2.  The contract is exact on [1, 2], the range that the
/// log-sum-exp form feeds it.
#[verifier::rlimit(30)]
pub fn fixed_ln(x: u64) -> (r: Result<u64, ErrorCode>)
    ensures
        x == 0 ==> r == Err::<u64, ErrorCode>(ErrorCode::InvalidInput),
        PRECISION <= x <= 2 * PRECISION ==> (r matches Ok(v) && v == spec_ln_12(x as int)
            && v <= LN_2),
        x >= PRECISION ==> (r matches Ok(v) && v == spec_ln_series(ln_halve(x as int))
            + ln_halve_count(x as int) * (LN_2 as int)),
        PRECISION / 2 <= x < PRECISION ==> (r matches Ok(v) && v == spec_ln_series_inv(
            x as int,
        )),
        0 < x < PRECISION / 2 ==> ({
            let reduced = spec_ln_series_inv(ln_double(x as int));
            let doublings = ln_double_count(x as int);
            if reduced >= doublings * (LN_2 as int) {
                r matches Ok(v) && v == reduced - doublings * (LN_2 as int)
            } else {
                r == Err::<u64, ErrorCode>(ErrorCode::UnderflowError)
            }
        }),
{
    if x == 0 {
        return Err(ErrorCode::InvalidInput);
    }
    if x == PRECISION {
        proof {
            let p = PRECISION as int;
            lemma_div_of0(2 * p);
            lemma_div_of0(p);
            assert(ln_y(p) == 0);
            assert(spec_ln_series(p) == 0);
            assert(ln_halve(p) == p);
            assert(ln_halve_count(p) == 0);
        }
        return Ok(0);
    }

    let ghost xi = x as int;
    let mut x_red: u64 = x;
    let mut exponent: i64 = 0;

    proof {
        lemma2_to64();
        lemma_div_by_multiple(xi, 1);
    }

    while x_red >= 2 * PRECISION
        invariant
            1 <= x_red,
            x >= 1,
            xi == x as int,
            0 <= exponent <= 64,
            x_red as int == xi / (pow2(exponent as nat) as int),
            exponent > 0 ==> x_red >= PRECISION,
            exponent == 0 ==> x_red == x,
            ln_halve(xi) == ln_halve(x_red as int),
            ln_halve_count(xi) == ln_halve_count(x_red as int) + exponent,
        decreases x_red,
    {
        proof {
            lemma2_to64();
            let e = exponent as nat;
            lemma_pow2_pos(e);
            // Since the reduced value is still at least one, the power of
            // two divided out so far is at most the input, which caps the
            // exponent below 64.
            lemma_fundamental_div_mod(xi, pow2(e) as int);
            lemma_mod_division_less_than_divisor(xi, pow2(e) as int);
            assert(pow2(e) as int <= xi) by (nonlinear_arith)
                requires
                    xi == pow2(e) as int * (xi / pow2(e) as int) + xi % pow2(e) as int,
                    xi % pow2(e) as int >= 0,
                    xi / pow2(e) as int >= 1,
                    pow2(e) > 0,
            ;
            if exponent >= 64 {
                lemma_pow2_adds(32, 32);
                assert(pow2(64) > u64::MAX) by (nonlinear_arith)
                    requires
                        pow2(64) == pow2(32) * pow2(32),
                        pow2(32) == 0x100000000,
                ;
                if e > 64 {
                    lemma_pow2_strictly_increases(64, e);
                }
                assert(false);
            }
            // Halving the reduced value matches stepping the exponent,
            // and unwinds one step of the reduction recursion.
            lemma_pow2_adds(e, 1);
            lemma_div_denominator(xi, pow2(e) as int, 2);
            lemma_div_is_ordered(2 * (PRECISION as int), x_red as int, 2);
            assert(ln_halve(x_red as int) == ln_halve(x_red as int / 2));
            assert(ln_halve_count(x_red as int) == 1 + ln_halve_count(x_red as int / 2));
        }
        x_red = x_red / 2;
        exponent = exponent + 1;
    }

    while x_red < PRECISION / 2
        invariant
            1 <= x_red < 2 * PRECISION,
            x >= 1,
            xi == x as int,
            -31 <= exponent <= 64,
            exponent >= 0 ==> x_red as int == xi / (pow2(exponent as nat) as int),
            exponent > 0 ==> x_red >= PRECISION,
            exponent == 0 ==> x_red == x,
            exponent < 0 ==> x_red as int == xi * pow2((-exponent) as nat)
                && x_red < PRECISION,
            exponent >= 0 ==> ln_halve(xi) == ln_halve(x_red as int) && ln_halve_count(xi)
                == ln_halve_count(x_red as int) + exponent,
            exponent <= 0 ==> ln_double(xi) == ln_double(x_red as int) && ln_double_count(xi)
                == ln_double_count(x_red as int) + (-exponent),
        decreases 2 * PRECISION - x_red,
    {
        proof {
            lemma2_to64();
            if exponent < 0 {
                let k = (-exponent) as nat;
                lemma_pow2_pos(k);
                // The doubled value stays below one half, so the count of
                // doublings stays below 30.
                assert(pow2(k) as int <= x_red as int) by (nonlinear_arith)
                    requires
                        x_red as int == xi * pow2(k) as int,
                        xi >= 1,
                        pow2(k) > 0,
                ;
                if k >= 30 {
                    if k > 30 {
                        lemma_pow2_strictly_increases(30, k);
                    }
                    assert(false);
                }
                lemma_pow2_adds(k, 1);
                assert(2 * (xi * pow2(k) as int) == xi * (pow2(k) as int * 2))
                    by (nonlinear_arith);
            }
            // One doubling unwinds one step of the reduction recursion.
            assert(ln_double(x_red as int) == ln_double(2 * (x_red as int)));
            assert(ln_double_count(x_red as int) == 1 + ln_double_count(2 * (x_red as int)));
        }
        x_red = x_red * 2;
        exponent = exponent - 1;
    }

    proof {
        // Which regime the input sits in pins the loop results: at least
        // one, the exponent counts halvings and the reduced value is the
        // halving recursion's; below one half, it counts doublings.
        lemma2_to64();
        if xi >= PRECISION {
            if exponent < 0 {
                let k = (-exponent) as nat;
                lemma_pow2_pos(k);
                lemma_pow2_strictly_increases(0, k);
                assert(xi * pow2(k) as int >= xi * 2) by (nonlinear_arith)
                    requires
                        pow2(k) as int >= 2,
                        xi >= 0,
                ;
                assert(false);
            }
            assert(x_red >= PRECISION);
            assert(ln_halve(x_red as int) == x_red as int);
            assert(ln_halve_count(x_red as int) == 0);
            assert(x_red as int == ln_halve(xi));
            assert(exponent as int == ln_halve_count(xi));
        }
        if 0 < xi && xi < PRECISION {
            if exponent > 0 {
                let e = exponent as nat;
                lemma_pow2_pos(e);
                lemma_pow2_strictly_increases(0, e);
                lemma_div_is_ordered_by_denominator(xi, 2, pow2(e) as int);
                lemma_div_is_ordered(xi, (PRECISION as int) - 1, 2);
                assert(false);
            }
            assert(exponent <= 0);
            assert(x_red < PRECISION);
            assert(ln_double(x_red as int) == x_red as int);
            assert(ln_double_count(x_red as int) == 0);
            assert(x_red as int == ln_double(xi));
            assert((-exponent) as int == ln_double_count(xi));
        }
        if PRECISION / 2 <= xi && xi < PRECISION {
            if exponent < 0 {
                let k = (-exponent) as nat;
                lemma_pow2_pos(k);
                lemma_pow2_strictly_increases(0, k);
                assert(xi * pow2(k) as int >= xi * 2) by (nonlinear_arith)
                    requires
                        pow2(k) as int >= 2,
                        xi >= 0,
                ;
                assert(false);
            }
            assert(exponent == 0 && x_red == x);
        }
        if 0 < xi && xi < PRECISION / 2 {
            if exponent == 0 {
                assert(x_red == x);
                assert(false);
            }
            assert(exponent < 0);
        }
        // On [1, 2] in particular the loops either do nothing or make
        // exactly one halving.
        if PRECISION <= x && x <= 2 * PRECISION {
            if exponent >= 1 {
                let e = exponent as nat;
                if exponent >= 2 {
                    lemma_pow2_strictly_increases(2, e);
                    lemma_div_is_ordered_by_denominator(xi, 4, pow2(e) as int);
                    assert(x_red as int <= xi / 4);
                    assert(false);
                }
                assert(x_red as int == xi / 2);
            }
            if x < 2 * PRECISION {
                if exponent == 1 {
                    assert(x_red < PRECISION);
                    assert(false);
                }
                assert(exponent == 0 && x_red == x);
            }
            if x == 2 * PRECISION {
                if exponent == 0 {
                    assert(x_red == x);
                    assert(false);
                }
                assert(exponent == 1 && x_red == PRECISION);
            }
        }
    }

    // From here on the reduced value sits in [0.5, 2.0).
    let y: u64;
    if x_red >= PRECISION {
        let num = x_red - PRECISION;
        let den = x_red + PRECISION;
        proof {
            let p = PRECISION as int;
            lemma_mul_nonnegative(num as int, p);
            lemma_mul_inequality(num as int, p, p);
            lemma_div_is_ordered(num as int * p, p * p, den as int);
            assert(p * p >= 0) by (nonlinear_arith);
            lemma_div_is_ordered_by_denominator(p * p, p, den as int);
            lemma_div_by_multiple(p, p);
        }
        y = match fixed_div(num, den) {
            Ok(v) => v,
            Err(e) => {
                return Err(e);
            },
        };
    } else {
        proof {
            let p = PRECISION as int;
            assert(p * p >= 0) by (nonlinear_arith);
            // 1/x stays within [1, 2] for x in [0.5, 1).
            lemma_div_is_ordered_by_denominator(p * p, (PRECISION / 2) as int, x_red as int);
            assert(p * p == (2 * p) * (p / 2)) by (nonlinear_arith)
                requires
                    p == 1_000_000_000,
            ;
            lemma_div_by_multiple(2 * p, p / 2);
            lemma_div_is_ordered_by_denominator(p * p, x_red as int, p);
            lemma_div_by_multiple(p, p);
        }
        let inv = match fixed_div(PRECISION, x_red) {
            Ok(v) => v,
            Err(e) => {
                return Err(e);
            },
        };
        let num = inv - PRECISION;
        let den = inv + PRECISION;
        proof {
            let p = PRECISION as int;
            lemma_mul_nonnegative(num as int, p);
            lemma_mul_inequality(num as int, p, p);
            lemma_div_is_ordered(num as int * p, p * p, den as int);
            lemma_div_is_ordered_by_denominator(p * p, p, den as int);
        }
        y = match fixed_div(num, den) {
            Ok(v) => v,
            Err(e) => {
                return Err(e);
            },
        };
    }

    proof {
        // All powers of y stay at or below one, which keeps the series sum
        // inside u64.
        let p = PRECISION as int;
        lemma_mul_nonnegative(y as int, y as int);
        lemma_div_pos_is_pos(y as int * y as int, p);
        lemma_mul_upper_bound(y as int, p, y as int, p);
        lemma_div_is_ordered(y as int * y as int, p * p, p);
        lemma_div_by_multiple(p, p);
    }
    let y2 = match fixed_mul(y, y) {
        Ok(v) => v,
        Err(e) => {
            return Err(e);
        },
    };
    proof {
        let p = PRECISION as int;
        lemma_mul_nonnegative(y2 as int, y as int);
        lemma_div_pos_is_pos(y2 as int * y as int, p);
        lemma_mul_upper_bound(y2 as int, p, y as int, p);
        lemma_div_is_ordered(y2 as int * y as int, p * p, p);
        lemma_div_by_multiple(p, p);
    }
    let y3 = match fixed_mul(y2, y) {
        Ok(v) => v,
        Err(e) => {
            return Err(e);
        },
    };
    proof {
        let p = PRECISION as int;
        lemma_mul_nonnegative(y3 as int, y2 as int);
        lemma_div_pos_is_pos(y3 as int * y2 as int, p);
        lemma_mul_upper_bound(y3 as int, p, y2 as int, p);
        lemma_div_is_ordered(y3 as int * y2 as int, p * p, p);
        lemma_div_by_multiple(p, p);
    }
    let y5 = match fixed_mul(y3, y2) {
        Ok(v) => v,
        Err(e) => {
            return Err(e);
        },
    };

    let series: u64 = 2 * (y + y3 / 3 + y5 / 5);

    // Add back the range reduction: ln(x) = series + exponent * ln(2).
    if exponent >= 0 {
        let adjustment: u64 = (exponent as u64) * LN_2;
        let result = series + adjustment;
        proof {
            if xi >= PRECISION {
                // The halving regime: the series argument is the reduced
                // value and the adjustment restores the halvings.
                assert(x_red >= PRECISION);
                assert(y as int == ln_y(x_red as int));
                assert(series == spec_ln_series(x_red as int));
                assert(adjustment as int == exponent * (LN_2 as int));
                assert(result == spec_ln_series(ln_halve(xi)) + ln_halve_count(xi) * (
                LN_2 as int));
            }
            if PRECISION / 2 <= xi && xi < PRECISION {
                // No reduction happened; the inverted series applies as is.
                assert(exponent == 0 && x_red == x);
                assert(series == spec_ln_series_inv(xi));
                assert(result == spec_ln_series_inv(xi));
            }
            if 0 < xi && xi < PRECISION / 2 {
                // Inputs below one half always leave a negative exponent.
                assert(false);
            }
            if PRECISION <= x && x < 2 * PRECISION {
                lemma_ln_series_bounds(x as int);
                assert(result == spec_ln_series(x as int));
            }
            if x == 2 * PRECISION {
                let p = PRECISION as int;
                lemma_div_of0(2 * p);
                lemma_div_of0(p);
                assert((x_red - PRECISION) as int * p == 0) by (nonlinear_arith)
                    requires
                        x_red == PRECISION,
                        p == 1_000_000_000,
                ;
                assert(ln_y(p) == 0);
                assert(y == 0);
                assert(y as int * y as int == 0) by (nonlinear_arith)
                    requires
                        y as int == 0,
                ;
                assert(y2 == 0);
                assert(y2 as int * y as int == 0) by (nonlinear_arith)
                    requires
                        y2 as int == 0,
                ;
                assert(y3 == 0);
                assert(y3 as int * y2 as int == 0) by (nonlinear_arith)
                    requires
                        y3 as int == 0,
                ;
                assert(y5 == 0);
                assert(series == 0);
                assert(result == LN_2);
            }
        }
        Ok(result)
    } else {
        let neg: u64 = ((-exponent) as u64) * LN_2;
        proof {
            // A negative exponent only arises for inputs below one half,
            // whose reduced value feeds the inverted series.
            assert(0 < xi && xi < PRECISION / 2);
            assert(x_red as int == ln_double(xi));
            assert((-exponent) as int == ln_double_count(xi));
            assert(x_red < PRECISION);
            assert(series == spec_ln_series_inv(ln_double(xi)));
            assert(neg as int == ln_double_count(xi) * (LN_2 as int));
        }
        if series >= neg {
            Ok(series - neg)
        } else {
            Err(ErrorCode::UnderflowError)
        }
    }
}


// ------------------------------------------------------------------------
// Log-sum-exp and the cost function
// ------------------------------------------------------------------------

/// Absolute difference, the argument handed to the negative exponential.
pub open spec fn abs_diff(x: int, y: int) -> int {
    if x >= y {
        x - y
    } else {
        y - x
    }
}

/// The argument of the logarithm in the factored form: `1 + e^(-d)`.
pub open spec fn lse_arg(d: int) -> int {
    PRECISION + fp_div(PRECISION as int, spec_exp(d))
}

/// What log-sum-exp returns: `max(x, y) + ln(1 + e^(-|x - y|))`.
pub open spec fn spec_lse(x: int, y: int) -> int {
    let m = if x >= y {
        x
    } else {
        y
    };
    m + spec_ln_12(lse_arg(abs_diff(x, y)))
}

/// The logarithm term of the factored form stays between 0 and ln 2.
pub proof fn lemma_lse_term_bounds(d: int)
    requires
        0 <= d <= MAX_EXP,
    ensures
        PRECISION <= lse_arg(d) <= 2 * PRECISION,
        0 <= spec_ln_12(lse_arg(d)) <= LN_2,
{
    let p = PRECISION as int;
    lemma_exp_bounds(d);
    let e = spec_exp(d);
    assert(p * p >= 0) by (nonlinear_arith);
    lemma_div_pos_is_pos(p * p, e);
    lemma_div_is_ordered_by_denominator(p * p, p, e);
    lemma_div_by_multiple(p, p);
    if lse_arg(d) < 2 * p {
        lemma_ln_series_bounds(lse_arg(d));
    }
}

/// Numerically stable log-sum-exp: `ln(e^x + e^y)` computed as
/// `max(x, y) + ln(1 + e^(-|x - y|))`, so no exponent argument ever exceeds
/// the domain of the exponential as long as the two inputs are close.
pub fn log_sum_exp(x: u64, y: u64) -> (r: Result<u64, ErrorCode>)
    ensures
        abs_diff(x as int, y as int) > MAX_EXP ==> r == Err::<u64, ErrorCode>(
            ErrorCode::ExponentTooLarge,
        ),
        abs_diff(x as int, y as int) <= MAX_EXP && spec_lse(x as int, y as int) <= u64::MAX
            ==> (r matches Ok(v) && v == spec_lse(x as int, y as int)),
        abs_diff(x as int, y as int) <= MAX_EXP && spec_lse(x as int, y as int) > u64::MAX
            ==> r == Err::<u64, ErrorCode>(ErrorCode::OverflowError),
        r matches Ok(v) ==> v <= abs_diff(x as int, y as int) + x as int + y as int + LN_2,
{
    let max_val: u64;
    let diff: u64;
    if x >= y {
        max_val = x;
        diff = x - y;
    } else {
        max_val = y;
        diff = y - x;
    }

    let exp_neg_diff = match fixed_exp_negative(diff) {
        Ok(v) => v,
        Err(e) => {
            return Err(e);
        },
    };
    let one_plus_exp: u64 = PRECISION + exp_neg_diff;
    proof {
        lemma_lse_term_bounds(diff as int);
    }
    let ln_term = match fixed_ln(one_plus_exp) {
        Ok(v) => v,
        Err(e) => {
            return Err(e);
        },
    };
    if max_val <= u64::MAX - ln_term {
        Ok(max_val + ln_term)
    } else {
        Err(ErrorCode::OverflowError)
    }
}

/// When the cost function is defined: the liquidity parameter is large
/// enough, both scaled share quantities and their log-sum-exp fit the native
/// width, and the two sides are close enough for the negative exponential.
pub open spec fn cost_args_ok(q_yes: int, q_no: int, b: int) -> bool {
    let x = fp_div(q_yes, b);
    let y = fp_div(q_no, b);
    &&& b >= MIN_B
    &&& x <= u64::MAX
    &&& y <= u64::MAX
    &&& abs_diff(x, y) <= MAX_EXP
    &&& spec_lse(x, y) <= u64::MAX
    &&& fp_mul(b, spec_lse(x, y)) <= u64::MAX
}

/// What the cost function returns: `b * lse(q_yes/b, q_no/b)`.
pub open spec fn spec_cost(q_yes: int, q_no: int, b: int) -> int {
    fp_mul(b, spec_lse(fp_div(q_yes, b), fp_div(q_no, b)))
}

/// The LMSR cost function `C(q_yes, q_no) = b * ln(e^(q_yes/b) + e^(q_no/b))`,
/// in the factored log-sum-exp form.  The result is the total value paid in
/// to reach the given share state.
pub fn cost_function(q_yes: u64, q_no: u64, b: u64) -> (r: Result<u64, ErrorCode>)
    ensures
        r is Ok <==> cost_args_ok(q_yes as int, q_no as int, b as int),
        r matches Ok(v) ==> v == spec_cost(q_yes as int, q_no as int, b as int),
        b < MIN_B ==> r == Err::<u64, ErrorCode>(ErrorCode::InvalidBParameter),
        r matches Err(e) ==> (e == ErrorCode::InvalidBParameter || e == ErrorCode::OverflowError
            || e == ErrorCode::ExponentTooLarge),
{
    if b < MIN_B {
        return Err(ErrorCode::InvalidBParameter);
    }
    let x = match fixed_div(q_yes, b) {
        Ok(v) => v,
        Err(e) => {
            return Err(e);
        },
    };
    let y = match fixed_div(q_no, b) {
        Ok(v) => v,
        Err(e) => {
            return Err(e);
        },
    };
    let log_sum = match log_sum_exp(x, y) {
        Ok(v) => v,
        Err(e) => {
            return Err(e);
        },
    };
    fixed_mul(b, log_sum)
}


// ------------------------------------------------------------------------
// Prices
// ------------------------------------------------------------------------

/// When the prices are defined: the liquidity parameter is large enough and
/// the share imbalance, scaled by `b`, is inside the exponential's domain.
pub open spec fn price_args_ok(q_yes: int, q_no: int, b: int) -> bool {
    &&& b >= MIN_B
    &&& fp_div(abs_diff(q_yes, q_no), b) <= MAX_EXP
}

/// What the YES price is: the softmax
/// `e^(q_yes/b) / (e^(q_yes/b) + e^(q_no/b))`, computed on whichever side is
/// larger so that the exponent argument is never negative.
pub open spec fn spec_yes_price(q_yes: int, q_no: int, b: int) -> int {
    if q_yes >= q_no {
        let e = spec_exp(fp_div(q_yes - q_no, b));
        fp_div(e, e + PRECISION)
    } else {
        let e = spec_exp(fp_div(q_no - q_yes, b));
        fp_div(PRECISION as int, PRECISION + e)
    }
}

/// What the NO price is: exactly one minus the YES price.
pub open spec fn spec_no_price(q_yes: int, q_no: int, b: int) -> int {
    PRECISION - spec_yes_price(q_yes, q_no, b)
}

/// A defined YES price lies strictly inside [0, 1).
pub proof fn lemma_yes_price_range(q_yes: int, q_no: int, b: int)
    requires
        price_args_ok(q_yes, q_no, b),
    ensures
        0 <= spec_yes_price(q_yes, q_no, b) < PRECISION,
{
    let p = PRECISION as int;
    let d = abs_diff(q_yes, q_no);
    let ratio = fp_div(d, b);
    lemma_div_pos_is_pos(d * p, b);
    lemma_exp_bounds(ratio);
    let e = spec_exp(ratio);
    if q_yes >= q_no {
        lemma_mul_nonnegative(e, p);
        lemma_div_pos_is_pos(e * p, e + p);
        assert(e * p < (e + p) * p) by (nonlinear_arith)
            requires
                e >= 0,
                p > 0,
        ;
        lemma_multiply_divide_lt(e * p, e + p, p);
    } else {
        assert(p * p >= 0) by (nonlinear_arith);
        lemma_div_pos_is_pos(p * p, p + e);
        assert(p * p < (p + e) * p) by (nonlinear_arith)
            requires
                e >= p,
                p > 0,
        ;
        lemma_multiply_divide_lt(p * p, p + e, p);
    }
}

/// The two prices of a binary market always add to exactly one: the NO price
/// is defined as the complement, and the YES price never reaches one.
pub proof fn lemma_prices_sum_to_one(q_yes: int, q_no: int, b: int)
    requires
        price_args_ok(q_yes, q_no, b),
    ensures
        spec_yes_price(q_yes, q_no, b) + spec_no_price(q_yes, q_no, b) == PRECISION,
        0 <= spec_no_price(q_yes, q_no, b) <= PRECISION,
{
    lemma_yes_price_range(q_yes, q_no, b);
}

/// The YES price by the numerically stable softmax form, branching on which
/// side is larger so that the exponent argument stays non-negative.
pub fn calculate_yes_price(q_yes: u64, q_no: u64, b: u64) -> (r: Result<u64, ErrorCode>)
    ensures
        r is Ok <==> price_args_ok(q_yes as int, q_no as int, b as int),
        r matches Ok(v) ==> v == spec_yes_price(q_yes as int, q_no as int, b as int)
            && v < PRECISION,
        b < MIN_B ==> r == Err::<u64, ErrorCode>(ErrorCode::InvalidBParameter),
        b >= MIN_B && fp_div(abs_diff(q_yes as int, q_no as int), b as int) > u64::MAX ==> r
            == Err::<u64, ErrorCode>(ErrorCode::OverflowError),
        b >= MIN_B && fp_div(abs_diff(q_yes as int, q_no as int), b as int) <= u64::MAX
            && fp_div(abs_diff(q_yes as int, q_no as int), b as int) > MAX_EXP ==> r == Err::<
            u64,
            ErrorCode,
        >(ErrorCode::ExponentTooLarge),
{
    if b < MIN_B {
        return Err(ErrorCode::InvalidBParameter);
    }
    if q_yes >= q_no {
        let diff = q_yes - q_no;
        let ratio = match fixed_div(diff, b) {
            Ok(v) => v,
            Err(e) => {
                return Err(e);
            },
        };
        let exp_ratio = match fixed_exp(ratio) {
            Ok(v) => v,
            Err(e) => {
                return Err(e);
            },
        };
        proof {
            lemma_exp_bounds(ratio as int);
            lemma_yes_price_range(q_yes as int, q_no as int, b as int);
        }
        let denominator: u64 = exp_ratio + PRECISION;
        fixed_div(exp_ratio, denominator)
    } else {
        let diff = q_no - q_yes;
        let ratio = match fixed_div(diff, b) {
            Ok(v) => v,
            Err(e) => {
                return Err(e);
            },
        };
        let exp_ratio = match fixed_exp(ratio) {
            Ok(v) => v,
            Err(e) => {
                return Err(e);
            },
        };
        proof {
            lemma_exp_bounds(ratio as int);
            lemma_yes_price_range(q_yes as int, q_no as int, b as int);
        }
        let denominator: u64 = PRECISION + exp_ratio;
        fixed_div(PRECISION, denominator)
    }
}

/// The NO price as the exact complement of the YES price, so that the two
/// always add to one, bit for bit.
pub fn calculate_no_price(q_yes: u64, q_no: u64, b: u64) -> (r: Result<u64, ErrorCode>)
    ensures
        r is Ok <==> price_args_ok(q_yes as int, q_no as int, b as int),
        r matches Ok(v) ==> v == spec_no_price(q_yes as int, q_no as int, b as int),
        r matches Err(e) ==> calculate_yes_price_err(q_yes as int, q_no as int, b as int, e),
{
    let yes_price = match calculate_yes_price(q_yes, q_no, b) {
        Ok(v) => v,
        Err(e) => {
            return Err(e);
        },
    };
    Ok(PRECISION - yes_price)
}

/// Which error the YES price computation surfaces for which inputs.
pub open spec fn calculate_yes_price_err(q_yes: int, q_no: int, b: int, e: ErrorCode) -> bool {
    if b < MIN_B {
        e == ErrorCode::InvalidBParameter
    } else if fp_div(abs_diff(q_yes, q_no), b) > u64::MAX {
        e == ErrorCode::OverflowError
    } else {
        e == ErrorCode::ExponentTooLarge
    }
}


// ------------------------------------------------------------------------
// Trading: share solver, buy cost, sell proceeds
// ------------------------------------------------------------------------

/// The share state after adding `shares` to the chosen side.
pub open spec fn shares_after_buy(q_yes: int, q_no: int, outcome: bool, shares: int) -> (
    int,
    int,
) {
    if outcome {
        (q_yes + shares, q_no)
    } else {
        (q_yes, q_no + shares)
    }
}

/// The cost of moving the book by `shares` on the chosen side.
pub open spec fn spec_probe_cost(
    q_yes: int,
    q_no: int,
    b: int,
    outcome: bool,
    shares: int,
) -> int {
    let (qy2, qn2) = shares_after_buy(q_yes, q_no, outcome, shares);
    spec_cost(qy2, qn2, b) - spec_cost(q_yes, q_no, b)
}

/// Whether the cost function is defined both before and after a move of
/// `shares` on the chosen side.
pub open spec fn spec_probe_ok(
    q_yes: int,
    q_no: int,
    b: int,
    outcome: bool,
    shares: int,
) -> bool {
    let (qy2, qn2) = shares_after_buy(q_yes, q_no, outcome, shares);
    cost_args_ok(q_yes, q_no, b) && cost_args_ok(qy2, qn2, b)
}

/// What the bisection guarantees of the shares it returns: either their
/// cost hits the target exactly, or they are the lower end of a bracket no
/// wider than the tolerance whose lower neighbour costs less than the
/// target and whose upper end either costs more or is the search cap.
pub open spec fn spec_solver_bracket(
    q_yes: int,
    q_no: int,
    b: int,
    outcome: bool,
    target: int,
    s: int,
) -> bool {
    ||| (spec_probe_ok(q_yes, q_no, b, outcome, s) && spec_probe_cost(
        q_yes,
        q_no,
        b,
        outcome,
        s,
    ) == target)
    ||| ((s == 0 || (spec_probe_ok(q_yes, q_no, b, outcome, s - 1) && spec_probe_cost(
        q_yes,
        q_no,
        b,
        outcome,
        s - 1,
    ) < target)) && (exists|h: int|
        s <= h <= s + (PRECISION as int) / 1000 && h <= 20 * b && (h == 20 * b || (
        #[trigger] spec_probe_cost(q_yes, q_no, b, outcome, h) > target && spec_probe_ok(
            q_yes,
            q_no,
            b,
            outcome,
            h,
        )))))
}

/// When the search cannot fail: the whole search range fits the native
/// width and every probe in it is defined with a non-negative cost.
pub open spec fn spec_solver_probes_ok(q_yes: int, q_no: int, b: int, outcome: bool) -> bool {
    &&& MIN_B <= b
    &&& 20 * b <= u64::MAX
    &&& (if outcome {
        q_yes
    } else {
        q_no
    }) + 20 * b <= u64::MAX
    &&& forall|s: int|
        0 <= s <= 20 * b ==> #[trigger] spec_probe_ok(q_yes, q_no, b, outcome, s)
            && spec_probe_cost(q_yes, q_no, b, outcome, s) >= 0
}

/// Binary search for the share quantity whose cost best matches the target.
/// The search stays inside `[0, 20 * b]` so that every probed state keeps
/// the exponent arguments inside the domain; it runs until the bracket is
/// narrower than the tolerance, inside the fixed iteration budget — which
/// the halving always meets, so every answer carries the bracket property.
pub fn shares_for_cost(
    current_q_yes: u64,
    current_q_no: u64,
    b: u64,
    outcome: bool,
    target_cost: u64,
) -> (r: Result<u64, ErrorCode>)
    ensures
        r matches Ok(s) ==> s as int <= 20 * (b as int),
        r matches Ok(s) ==> spec_solver_bracket(
            current_q_yes as int,
            current_q_no as int,
            b as int,
            outcome,
            target_cost as int,
            s as int,
        ),
        spec_solver_probes_ok(current_q_yes as int, current_q_no as int, b as int, outcome)
            ==> r is Ok,
        b < MIN_B ==> r == Err::<u64, ErrorCode>(ErrorCode::InvalidBParameter),
        r matches Err(e) ==> (e == ErrorCode::InvalidBParameter || e == ErrorCode::OverflowError
            || e == ErrorCode::ExponentTooLarge || e == ErrorCode::UnderflowError),
{
    let ghost qy = current_q_yes as int;
    let ghost qn = current_q_no as int;
    let ghost bi = b as int;

    let cost_before = match cost_function(current_q_yes, current_q_no, b) {
        Ok(v) => v,
        Err(e) => {
            proof {
                if spec_solver_probes_ok(qy, qn, bi, outcome) {
                    assert(spec_probe_ok(qy, qn, bi, outcome, 0));
                    assert(false);
                }
            }
            return Err(e);
        },
    };

    if b > u64::MAX / 20 {
        proof {
            lemma_fundamental_div_mod(u64::MAX as int, 20);
            lemma_mod_division_less_than_divisor(u64::MAX as int, 20);
            if spec_solver_probes_ok(qy, qn, bi, outcome) {
                assert(false) by (nonlinear_arith)
                    requires
                        20 * bi <= u64::MAX,
                        u64::MAX as int == 20 * ((u64::MAX as int) / 20) + (u64::MAX as int)
                            % 20,
                        0 <= (u64::MAX as int) % 20 < 20,
                        bi > (u64::MAX as int) / 20,
                ;
            }
        }
        return Err(ErrorCode::OverflowError);
    }
    let max_safe_shares: u64 = 20 * b;

    let mut low: u64 = 0;
    let mut high: u64 = max_safe_shares;
    let tolerance: u64 = PRECISION / 1000;

    let mut iteration: u64 = 0;
    proof {
        lemma2_to64();
    }
    while iteration < 50 && high - low > tolerance
        invariant
            low <= high,
            high <= 20 * bi,
            MIN_B <= b,
            20 * bi <= u64::MAX,
            qy == current_q_yes as int,
            qn == current_q_no as int,
            bi == b as int,
            tolerance == PRECISION / 1000,
            0 <= iteration <= 50,
            cost_args_ok(qy, qn, bi),
            cost_before == spec_cost(qy, qn, bi),
            low == 0 || (spec_probe_ok(qy, qn, bi, outcome, low as int - 1) && spec_probe_cost(
                qy,
                qn,
                bi,
                outcome,
                low as int - 1,
            ) < target_cost),
            high as int == 20 * bi || (spec_probe_ok(qy, qn, bi, outcome, high as int)
                && spec_probe_cost(qy, qn, bi, outcome, high as int) > target_cost),
            (high - low) as int * (pow2(iteration as nat) as int) <= 20 * bi + 2 * (pow2(
                iteration as nat,
            ) as int),
        decreases 50 - iteration,
    {
        let mid = low + (high - low) / 2;
        proof {
            lemma2_to64();
        }

        let new_q_yes: u64;
        let new_q_no: u64;
        if outcome {
            if current_q_yes > u64::MAX - mid {
                proof {
                    if spec_solver_probes_ok(qy, qn, bi, outcome) {
                        assert(false);
                    }
                }
                return Err(ErrorCode::OverflowError);
            }
            new_q_yes = current_q_yes + mid;
            new_q_no = current_q_no;
        } else {
            if current_q_no > u64::MAX - mid {
                proof {
                    if spec_solver_probes_ok(qy, qn, bi, outcome) {
                        assert(false);
                    }
                }
                return Err(ErrorCode::OverflowError);
            }
            new_q_yes = current_q_yes;
            new_q_no = current_q_no + mid;
        }
        proof {
            assert((new_q_yes as int, new_q_no as int) == shares_after_buy(
                qy,
                qn,
                outcome,
                mid as int,
            ));
        }

        let cost_after = match cost_function(new_q_yes, new_q_no, b) {
            Ok(v) => v,
            Err(e) => {
                proof {
                    if spec_solver_probes_ok(qy, qn, bi, outcome) {
                        assert(spec_probe_ok(qy, qn, bi, outcome, mid as int));
                        assert(false);
                    }
                }
                return Err(e);
            },
        };
        if cost_after < cost_before {
            proof {
                if spec_solver_probes_ok(qy, qn, bi, outcome) {
                    assert(spec_probe_ok(qy, qn, bi, outcome, mid as int));
                    assert(spec_probe_cost(qy, qn, bi, outcome, mid as int) >= 0);
                    assert(false);
                }
            }
            return Err(ErrorCode::UnderflowError);
        }
        let actual_cost = cost_after - cost_before;
        proof {
            assert(actual_cost == spec_probe_cost(qy, qn, bi, outcome, mid as int));
        }

        // Each step halves the bracket, so fifty steps are always enough
        // to shrink it below the tolerance.
        proof {
            let w = (high - low) as int;
            let wp2 = pow2(iteration as nat) as int;
            lemma_pow2_adds(iteration as nat, 1);
            lemma_pow2_pos(iteration as nat);
            lemma_fundamental_div_mod(w, 2);
            lemma_mod_division_less_than_divisor(w, 2);
            let wp2n = pow2((iteration + 1) as nat) as int;
            assert((high as int - mid as int - 1) * wp2n <= 20 * bi + 2 * wp2n && (mid as int
                - low as int) * wp2n <= 20 * bi + 2 * wp2n) by (nonlinear_arith)
                requires
                    w == high as int - low as int,
                    mid as int == low as int + w / 2,
                    w == 2 * (w / 2) + w % 2,
                    0 <= w % 2 < 2,
                    w * wp2 <= 20 * bi + 2 * wp2,
                    wp2 >= 1,
                    wp2n == 2 * wp2,
                    20 * bi >= 0,
            ;
        }

        if actual_cost < target_cost {
            low = mid + 1;
        } else if actual_cost > target_cost {
            high = mid;
        } else {
            return Ok(mid);
        }
        iteration = iteration + 1;
    }

    proof {
        // At exit the bracket is inside the tolerance: directly when the
        // width condition stopped the loop, and through the geometric
        // shrinkage when the iteration budget did.
        if high - low > tolerance {
            lemma2_to64_rest();
            let w = (high - low) as int;
            lemma_pow2_pos(50);
            assert(false) by (nonlinear_arith)
                requires
                    w * (pow2(50) as int) <= 20 * (b as int) + 2 * (pow2(50) as int),
                    20 * (b as int) <= u64::MAX,
                    pow2(50) == 0x4000000000000,
                    w > 1_000_000,
            ;
        }
        // The returned lower end carries the bracket: the upper end is the
        // witness.
        assert(spec_probe_cost(qy, qn, bi, outcome, high as int) == spec_probe_cost(
            qy,
            qn,
            bi,
            outcome,
            high as int,
        ));
        assert(spec_solver_bracket(qy, qn, bi, outcome, target_cost as int, low as int));
    }
    Ok(low)
}

/// Cost to buy: finds the share quantity for the target spend by binary
/// search, then returns the pair of the exact cost difference
/// `C(q + shares) - C(q)` and the shares themselves.  The shares carry the
/// solver's bracket property, and the search cannot fail when every probe
/// in its range is defined.
pub fn calculate_buy_cost(
    current_q_yes: u64,
    current_q_no: u64,
    b: u64,
    outcome: bool,
    target_cost: u64,
) -> (r: Result<(u64, u64), ErrorCode>)
    ensures
        r matches Ok(pair) ==> {
            let (qy2, qn2) = shares_after_buy(
                current_q_yes as int,
                current_q_no as int,
                outcome,
                pair.1 as int,
            );
            &&& pair.1 as int <= 20 * (b as int)
            &&& cost_args_ok(current_q_yes as int, current_q_no as int, b as int)
            &&& cost_args_ok(qy2, qn2, b as int)
            &&& pair.0 == spec_cost(qy2, qn2, b as int) - spec_cost(
                current_q_yes as int,
                current_q_no as int,
                b as int,
            )
            &&& spec_solver_bracket(
                current_q_yes as int,
                current_q_no as int,
                b as int,
                outcome,
                target_cost as int,
                pair.1 as int,
            )
        },
        spec_solver_probes_ok(current_q_yes as int, current_q_no as int, b as int, outcome)
            ==> r is Ok,
        b < MIN_B ==> r == Err::<(u64, u64), ErrorCode>(ErrorCode::InvalidBParameter),
        r matches Err(e) ==> (e == ErrorCode::InvalidBParameter || e == ErrorCode::OverflowError
            || e == ErrorCode::ExponentTooLarge || e == ErrorCode::UnderflowError),
{
    let ghost qy = current_q_yes as int;
    let ghost qn = current_q_no as int;
    let ghost bi = b as int;

    let shares = match shares_for_cost(current_q_yes, current_q_no, b, outcome, target_cost) {
        Ok(v) => v,
        Err(e) => {
            return Err(e);
        },
    };

    let new_q_yes: u64;
    let new_q_no: u64;
    if outcome {
        if current_q_yes > u64::MAX - shares {
            proof {
                if spec_solver_probes_ok(qy, qn, bi, outcome) {
                    assert(false);
                }
            }
            return Err(ErrorCode::OverflowError);
        }
        new_q_yes = current_q_yes + shares;
        new_q_no = current_q_no;
    } else {
        if current_q_no > u64::MAX - shares {
            proof {
                if spec_solver_probes_ok(qy, qn, bi, outcome) {
                    assert(false);
                }
            }
            return Err(ErrorCode::OverflowError);
        }
        new_q_yes = current_q_yes;
        new_q_no = current_q_no + shares;
    }
    proof {
        assert((new_q_yes as int, new_q_no as int) == shares_after_buy(
            qy,
            qn,
            outcome,
            shares as int,
        ));
    }

    let cost_before = match cost_function(current_q_yes, current_q_no, b) {
        Ok(v) => v,
        Err(e) => {
            proof {
                if spec_solver_probes_ok(qy, qn, bi, outcome) {
                    assert(spec_probe_ok(qy, qn, bi, outcome, 0));
                    assert(false);
                }
            }
            return Err(e);
        },
    };
    let cost_after = match cost_function(new_q_yes, new_q_no, b) {
        Ok(v) => v,
        Err(e) => {
            proof {
                if spec_solver_probes_ok(qy, qn, bi, outcome) {
                    assert(spec_probe_ok(qy, qn, bi, outcome, shares as int));
                    assert(false);
                }
            }
            return Err(e);
        },
    };
    if cost_after < cost_before {
        proof {
            if spec_solver_probes_ok(qy, qn, bi, outcome) {
                assert(spec_probe_ok(qy, qn, bi, outcome, shares as int));
                assert(spec_probe_cost(qy, qn, bi, outcome, shares as int) >= 0);
                assert(false);
            }
        }
        return Err(ErrorCode::UnderflowError);
    }
    Ok((cost_after - cost_before, shares))
}

/// Proceeds from selling: the closed form `C(q) - C(q - shares)`, no search
/// needed.  Fails with `InsufficientShares` when the side holds fewer shares
/// than are being sold.
pub fn calculate_sell_proceeds(
    current_q_yes: u64,
    current_q_no: u64,
    b: u64,
    outcome: bool,
    shares_to_sell: u64,
) -> (r: Result<u64, ErrorCode>)
    ensures
        outcome && shares_to_sell > current_q_yes ==> r == Err::<u64, ErrorCode>(
            ErrorCode::InsufficientShares,
        ),
        !outcome && shares_to_sell > current_q_no ==> r == Err::<u64, ErrorCode>(
            ErrorCode::InsufficientShares,
        ),
        (if outcome {
            shares_to_sell <= current_q_yes
        } else {
            shares_to_sell <= current_q_no
        }) && b < MIN_B ==> r == Err::<u64, ErrorCode>(ErrorCode::InvalidBParameter),
        r is Ok <==> ({
            let (qy2, qn2) = shares_after_buy(
                current_q_yes as int,
                current_q_no as int,
                outcome,
                -(shares_to_sell as int),
            );
            &&& (if outcome {
                shares_to_sell <= current_q_yes
            } else {
                shares_to_sell <= current_q_no
            })
            &&& cost_args_ok(current_q_yes as int, current_q_no as int, b as int)
            &&& cost_args_ok(qy2, qn2, b as int)
            &&& spec_cost(qy2, qn2, b as int) <= spec_cost(
                current_q_yes as int,
                current_q_no as int,
                b as int,
            )
        }),
        r matches Ok(v) ==> {
            let (qy2, qn2) = shares_after_buy(
                current_q_yes as int,
                current_q_no as int,
                outcome,
                -(shares_to_sell as int),
            );
            &&& cost_args_ok(current_q_yes as int, current_q_no as int, b as int)
            &&& cost_args_ok(qy2, qn2, b as int)
            &&& v == spec_cost(current_q_yes as int, current_q_no as int, b as int) - spec_cost(
                qy2,
                qn2,
                b as int,
            )
        },
{
    let new_q_yes: u64;
    let new_q_no: u64;
    if outcome {
        if shares_to_sell > current_q_yes {
            return Err(ErrorCode::InsufficientShares);
        }
        new_q_yes = current_q_yes - shares_to_sell;
        new_q_no = current_q_no;
    } else {
        if shares_to_sell > current_q_no {
            return Err(ErrorCode::InsufficientShares);
        }
        new_q_yes = current_q_yes;
        new_q_no = current_q_no - shares_to_sell;
    }

    let cost_before = match cost_function(current_q_yes, current_q_no, b) {
        Ok(v) => v,
        Err(e) => {
            return Err(e);
        },
    };
    let cost_after = match cost_function(new_q_yes, new_q_no, b) {
        Ok(v) => v,
        Err(e) => {
            return Err(e);
        },
    };
    if cost_before < cost_after {
        return Err(ErrorCode::UnderflowError);
    }
    Ok(cost_before - cost_after)
}

/// No riskless round trip: selling back exactly the shares just bought
/// returns the book to its starting state, so the gross proceeds are
/// exactly the cost difference that was just paid and can never exceed it.
/// And whenever the buy was defined with a non-negative cost, the sale
/// back is defined too, so the comparison is never vacuous.  The fees
/// charged on both legs then make the round trip a strict loss.
pub proof fn lemma_no_round_trip_profit(
    q_yes: int,
    q_no: int,
    b: int,
    outcome: bool,
    shares: int,
)
    requires
        0 <= shares,
    ensures
        ({
            let (qy2, qn2) = shares_after_buy(q_yes, q_no, outcome, shares);
            let (qy3, qn3) = shares_after_buy(qy2, qn2, outcome, -shares);
            &&& qy3 == q_yes
            &&& qn3 == q_no
            &&& spec_cost(qy2, qn2, b) - spec_cost(qy3, qn3, b) <= spec_cost(qy2, qn2, b)
                - spec_cost(q_yes, q_no, b)
            &&& (0 <= q_yes && 0 <= q_no && spec_probe_ok(q_yes, q_no, b, outcome, shares)
                && spec_probe_cost(q_yes, q_no, b, outcome, shares) >= 0 ==> ({
                &&& (if outcome {
                    shares <= qy2
                } else {
                    shares <= qn2
                })
                &&& cost_args_ok(qy2, qn2, b)
                &&& cost_args_ok(qy3, qn3, b)
                &&& spec_cost(qy3, qn3, b) <= spec_cost(qy2, qn2, b)
            }))
        }),
{
}

// ------------------------------------------------------------------------
// Bounded loss
// ------------------------------------------------------------------------

/// What the worst-case loss of the market maker is: `b * ln(2)`.
pub open spec fn spec_max_loss(b: int) -> int {
    b * (LN_2 as int) / (PRECISION as int)
}

/// The maximum theoretical loss of the market maker, `b * ln(2)`, scaled
/// back to value units.  Total for every input thanks to the 128-bit
/// intermediate; the result never exceeds `b` itself.
pub fn calculate_max_loss(b: u64) -> (r: u64)
    ensures
        r == spec_max_loss(b as int),
        r <= b,
{
    proof {
        assert((b as u128) * (LN_2 as u128) <= u128::MAX) by (nonlinear_arith);
        lemma_mul_nonnegative(b as int, LN_2 as int);
        lemma_mul_inequality(LN_2 as int, PRECISION as int, b as int);
        lemma_div_is_ordered(
            b as int * LN_2 as int,
            b as int * (PRECISION as int),
            PRECISION as int,
        );
        lemma_div_by_multiple(b as int, PRECISION as int);
        assert(b as int * LN_2 as int == LN_2 as int * b as int) by (nonlinear_arith);
        assert(b as int * (PRECISION as int) == (PRECISION as int) * b as int)
            by (nonlinear_arith);
    }
    ((b as u128) * (LN_2 as u128) / (PRECISION as u128)) as u64
}

/// The liquidity parameter needed for a desired worst-case loss:
/// `b = max_loss / ln(2)`, clamped up to the minimum parameter.
pub fn calculate_b_parameter(max_loss: u64) -> (r: u64)
    ensures
        fp_div(max_loss as int, LN_2 as int) <= u64::MAX && fp_div(max_loss as int, LN_2 as int)
            >= MIN_B ==> r == fp_div(max_loss as int, LN_2 as int),
        fp_div(max_loss as int, LN_2 as int) < MIN_B ==> r == MIN_B,
        fp_div(max_loss as int, LN_2 as int) > u64::MAX ==> r == MIN_B,
        r >= MIN_B,
{
    proof {
        assert((max_loss as u128) * (PRECISION as u128) <= u128::MAX) by (nonlinear_arith);
    }
    let wide: u128 = (max_loss as u128) * (PRECISION as u128) / (LN_2 as u128);
    let b: u64 = if wide <= u64::MAX as u128 {
        wide as u64
    } else {
        MIN_B
    };
    if b < MIN_B {
        MIN_B
    } else {
        b
    }
}


// ------------------------------------------------------------------------
// Price movement
// ------------------------------------------------------------------------

/// Ordering of two truncating quotients from their cross products.
proof fn lemma_div_cross_ordered(n1: int, d1: int, n2: int, d2: int)
    requires
        d1 > 0,
        d2 > 0,
        n1 >= 0,
        n2 >= 0,
        n1 * d2 <= n2 * d1,
    ensures
        n1 / d1 <= n2 / d2,
{
    let q = n1 / d1;
    lemma_fundamental_div_mod(n1, d1);
    lemma_mod_division_less_than_divisor(n1, d1);
    lemma_div_pos_is_pos(n1, d1);
    assert(q * d2 <= n2) by (nonlinear_arith)
        requires
            n1 == d1 * q + n1 % d1,
            n1 % d1 >= 0,
            n1 * d2 <= n2 * d1,
            d1 > 0,
            d2 > 0,
    ;
    lemma_mul_nonnegative(q, d2);
    lemma_div_is_ordered(q * d2, n2, d2);
    lemma_div_by_multiple(q, d2);
}

/// Truncating division is superadditive: the quotient of a sum is at
/// least the sum of the quotients.
proof fn lemma_div_superadditive(
    a: int,
    c: int,
    b: int,
    qa: int,
    ra: int,
    qc: int,
    rc: int,
    qs: int,
    rs: int,
) by (nonlinear_arith)
    requires
        b > 0,
        a == b * qa + ra,
        0 <= ra < b,
        c == b * qc + rc,
        0 <= rc < b,
        a + c == b * qs + rs,
        0 <= rs < b,
    ensures
        qs >= qa + qc,
{
}

/// A ring identity: the difference of the approximant's cross products is
/// twice the bracket the monotonicity argument bounds.
proof fn lemma_pade_cross_expansion(p: int, h1: int, h2: int, d1: int, d2: int)
    by (nonlinear_arith)
    ensures
        (p + h2 + d2) * (p + d1 - h1) - (p + h1 + d1) * (p + d2 - h2) == 2 * (p * (h2 - h1) + h2
            * d1 - h1 * d2),
{
}

/// The growth of the scaled quadratic term is controlled by the growth of
/// the argument.
proof fn lemma_quad_growth(x1: int, x2: int, q1: int, q2: int) by (nonlinear_arith)
    requires
        0 <= x1 <= x2,
        1_000_000_000 * q1 <= x1 * x1,
        x1 * x1 < 1_000_000_000 * q1 + 1_000_000_000,
        1_000_000_000 * q2 <= x2 * x2,
        x2 * x2 < 1_000_000_000 * q2 + 1_000_000_000,
    ensures
        1_000_000_000 * (q2 - q1) <= (x2 - x1) * (x2 + x1) + 1_000_000_000,
{
}

/// The half-step term outgrows the quadratic term on [0, 2] once the
/// arguments are at least 20 ulps apart.
proof fn lemma_pade_bracket_nonneg(
    dx: int,
    s: int,
    h1: int,
    h2: int,
    d1: int,
    d2: int,
    qd: int,
) by (nonlinear_arith)
    requires
        dx >= 20,
        0 <= s <= 4_000_000_000,
        1_000_000_000 * qd <= dx * s + 1_000_000_000,
        12 * (d2 - d1) <= qd + 11,
        2 * (h2 - h1) >= dx - 1,
        0 <= h1 <= 1_000_000_000,
        0 <= d1,
        h1 <= h2,
    ensures
        1_000_000_000 * (h2 - h1) + h2 * d1 - h1 * d2 >= 0,
{
}

/// The fixed-point exponential does not fall between two arguments in
/// [0, 2] that are at least 20 ulps apart.  (The rational approximant is
/// increasing on this range; the gap absorbs the floor rounding of its
/// quadratic term.)
proof fn lemma_exp_does_not_fall(x1: int, x2: int)
    requires
        0 <= x1,
        x1 + 20 <= x2,
        x2 <= 2 * PRECISION,
    ensures
        spec_exp(x1) <= spec_exp(x2),
{
    let p = PRECISION as int;
    let h1 = x1 / 2;
    let h2 = x2 / 2;
    let xx1 = x1 * x1;
    let xx2 = x2 * x2;
    let q1 = xx1 / p;
    let q2 = xx2 / p;
    let d1 = q1 / 12;
    let d2 = q2 / 12;

    lemma_fundamental_div_mod(x1, 2);
    lemma_mod_division_less_than_divisor(x1, 2);
    lemma_fundamental_div_mod(x2, 2);
    lemma_mod_division_less_than_divisor(x2, 2);
    assert(xx1 >= 0 && xx2 >= 0 && xx1 <= xx2) by (nonlinear_arith)
        requires
            0 <= x1 <= x2,
            xx1 == x1 * x1,
            xx2 == x2 * x2,
    ;
    lemma_fundamental_div_mod(xx1, p);
    lemma_mod_division_less_than_divisor(xx1, p);
    lemma_fundamental_div_mod(xx2, p);
    lemma_mod_division_less_than_divisor(xx2, p);
    lemma_fundamental_div_mod(q1, 12);
    lemma_mod_division_less_than_divisor(q1, 12);
    lemma_fundamental_div_mod(q2, 12);
    lemma_mod_division_less_than_divisor(q2, 12);
    lemma_div_pos_is_pos(xx1, p);
    lemma_div_pos_is_pos(q1, 12);
    lemma_div_pos_is_pos(x1, 2);

    lemma_quad_growth(x1, x2, q1, q2);
    lemma_pade_bracket_nonneg(x2 - x1, x1 + x2, h1, h2, d1, d2, q2 - q1);
    lemma_pade_cross_expansion(p, h1, h2, d1, d2);

    lemma_exp_bounds(x1);
    lemma_exp_bounds(x2);
    let num1 = exp_num(x1);
    let den1 = exp_den(x1);
    let num2 = exp_num(x2);
    let den2 = exp_den(x2);
    assert(num2 * den1 >= num1 * den2);
    lemma_mul_nonnegative(num1, p);
    lemma_mul_nonnegative(num2, p);
    assert((num1 * p) * den2 <= (num2 * p) * den1) by (nonlinear_arith)
        requires
            num1 * den2 <= num2 * den1,
            p > 0,
    ;
    lemma_div_cross_ordered(num1 * p, den1, num2 * p, den2);
}

/// Buying YES shares never lowers the YES price, as long as the market is
/// already YES-favoured, the purchase moves the scaled imbalance by at
/// least 20 ulps, and the imbalance stays within twice the liquidity
/// parameter.  At finer granularity the truncating arithmetic can leave the
/// price bit-identical, so no strict form holds of the integer engine.
pub proof fn lemma_buying_yes_does_not_lower_price(q_yes: int, q_no: int, b: int, delta: int)
    requires
        MIN_B <= b,
        0 <= q_no <= q_yes,
        0 <= delta,
        fp_div(delta, b) >= 20,
        fp_div(q_yes + delta - q_no, b) <= 2 * PRECISION,
    ensures
        spec_yes_price(q_yes, q_no, b) <= spec_yes_price(q_yes + delta, q_no, b),
{
    let p = PRECISION as int;
    let x1 = fp_div(q_yes - q_no, b);
    let x2 = fp_div(q_yes + delta - q_no, b);

    // The scaled imbalance is superadditive under truncation, so the move
    // of at least 20 ulps survives the division.
    lemma_mul_nonnegative(q_yes - q_no, p);
    lemma_mul_nonnegative(delta, p);
    lemma_div_pos_is_pos((q_yes - q_no) * p, b);
    lemma_fundamental_div_mod((q_yes - q_no) * p, b);
    lemma_mod_division_less_than_divisor((q_yes - q_no) * p, b);
    lemma_fundamental_div_mod(delta * p, b);
    lemma_mod_division_less_than_divisor(delta * p, b);
    lemma_fundamental_div_mod((q_yes + delta - q_no) * p, b);
    lemma_mod_division_less_than_divisor((q_yes + delta - q_no) * p, b);
    assert((q_yes + delta - q_no) * p == (q_yes - q_no) * p + delta * p) by (nonlinear_arith);
    lemma_div_superadditive(
        (q_yes - q_no) * p,
        delta * p,
        b,
        x1,
        ((q_yes - q_no) * p) % b,
        fp_div(delta, b),
        (delta * p) % b,
        x2,
        ((q_yes + delta - q_no) * p) % b,
    );

    lemma_exp_does_not_fall(x1, x2);
    lemma_exp_bounds(x1);
    lemma_exp_bounds(x2);
    let e1 = spec_exp(x1);
    let e2 = spec_exp(x2);

    // The softmax step e / (e + 1) preserves the ordering.
    lemma_mul_nonnegative(e1, p);
    lemma_mul_nonnegative(e2, p);
    assert((e1 * p) * (e2 + p) <= (e2 * p) * (e1 + p)) by (nonlinear_arith)
        requires
            e1 <= e2,
            e1 >= 0,
            e2 >= 0,
            p > 0,
    ;
    lemma_div_cross_ordered(e1 * p, e1 + p, e2 * p, e2 + p);
}

} // verus!
