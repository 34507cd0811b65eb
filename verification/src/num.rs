//! Numbers for the evaluator, held as IEEE 754 double-precision bit patterns.
//!
//! The evaluator never performs machine floating-point operations; it works on
//! the 64-bit patterns directly.  Classification, truthiness, equality and
//! ordering follow the IEEE 754 rules exactly (NaN compares unequal to
//! everything, positive and negative zero are equal).  Arithmetic and decimal
//! parsing are exact on the integral doubles of magnitude below 2^53 and on
//! the infinities and zeros; a result outside that exact range is reported as
//! NaN rather than rounded.

use vstd::arithmetic::power2::{
    lemma2_to64, lemma2_to64_rest, lemma_pow2_adds, lemma_pow2_pos, lemma_pow2_strictly_increases,
    lemma_pow2_unfold, pow2,
};
use vstd::prelude::*;

verus! {

/// Value of the sign bit of a double's bit pattern: 2^63.
pub const SIGN_BIT: u64 = 0x8000_0000_0000_0000;

/// One unit of the exponent field: 2^52.
pub const EXP_UNIT: u64 = 0x0010_0000_0000_0000;

/// Bit pattern of positive infinity; also the magnitude above which a pattern is NaN.
pub const INFINITY_BITS: u64 = 0x7FF0_0000_0000_0000;

/// Bit pattern of negative infinity.
pub const NEG_INFINITY_BITS: u64 = 0xFFF0_0000_0000_0000;

/// The canonical quiet NaN pattern produced by this module.
pub const NAN_BITS: u64 = 0x7FF8_0000_0000_0000;

/// Bit pattern of positive zero.
pub const ZERO_BITS: u64 = 0;

/// Bit pattern of negative zero.
pub const NEG_ZERO_BITS: u64 = 0x8000_0000_0000_0000;

/// Bit pattern of 1.0.
pub const ONE_BITS: u64 = 0x3FF0_0000_0000_0000;

/// 2^53: integers of magnitude below this are exactly representable.
pub const MAX_SAFE: u64 = 0x0020_0000_0000_0000;

/// The pattern with the sign bit cleared.
pub open spec fn abs_bits(b: u64) -> u64 {
    b % SIGN_BIT
}

/// True when the sign bit is set.
pub open spec fn sign_bit(b: u64) -> bool {
    b >= SIGN_BIT
}

/// Exponent field, 0 ..= 0x7FF.
pub open spec fn exp_bits(b: u64) -> u64 {
    abs_bits(b) / EXP_UNIT
}

/// Fraction field, below 2^52.
pub open spec fn frac_bits(b: u64) -> u64 {
    b % EXP_UNIT
}

pub open spec fn is_nan(b: u64) -> bool {
    abs_bits(b) > INFINITY_BITS
}

pub open spec fn is_infinite(b: u64) -> bool {
    abs_bits(b) == INFINITY_BITS
}

pub open spec fn is_zero(b: u64) -> bool {
    abs_bits(b) == 0
}

pub open spec fn is_finite(b: u64) -> bool {
    abs_bits(b) < INFINITY_BITS
}

/// A number is truthy when it is neither NaN nor a zero.
pub open spec fn truthy(b: u64) -> bool {
    !is_nan(b) && !is_zero(b)
}

/// Order key: every non-NaN pattern maps to an integer that orders doubles as
/// IEEE 754 does, with both zeros mapping to 0.
pub open spec fn order_key(b: u64) -> int {
    if sign_bit(b) {
        -(abs_bits(b) as int)
    } else {
        abs_bits(b) as int
    }
}

/// IEEE equality: NaN equals nothing, the two zeros are equal, and otherwise
/// equal patterns are equal values.
pub open spec fn eq_bits(a: u64, b: u64) -> bool {
    !is_nan(a) && !is_nan(b) && order_key(a) == order_key(b)
}

/// IEEE strict ordering: false whenever either side is NaN.
pub open spec fn lt_bits(a: u64, b: u64) -> bool {
    !is_nan(a) && !is_nan(b) && order_key(a) < order_key(b)
}

pub open spec fn le_bits(a: u64, b: u64) -> bool {
    !is_nan(a) && !is_nan(b) && order_key(a) <= order_key(b)
}

pub fn num_is_nan(b: u64) -> (r: bool)
    ensures
        r == is_nan(b),
{
    b % SIGN_BIT > INFINITY_BITS
}

pub fn num_truthy(b: u64) -> (r: bool)
    ensures
        r == truthy(b),
{
    let a: u64 = b % SIGN_BIT;
    a <= INFINITY_BITS && a != 0
}

pub fn num_eq(a: u64, b: u64) -> (r: bool)
    ensures
        r == eq_bits(a, b),
{
    let aa: u64 = a % SIGN_BIT;
    let ab: u64 = b % SIGN_BIT;
    if aa > INFINITY_BITS || ab > INFINITY_BITS {
        false
    } else if aa == 0 && ab == 0 {
        true
    } else {
        a == b
    }
}

pub fn num_lt(a: u64, b: u64) -> (r: bool)
    ensures
        r == lt_bits(a, b),
{
    let aa: u64 = a % SIGN_BIT;
    let ab: u64 = b % SIGN_BIT;
    if aa > INFINITY_BITS || ab > INFINITY_BITS {
        false
    } else if a >= SIGN_BIT {
        if b >= SIGN_BIT {
            ab < aa
        } else {
            aa > 0 || ab > 0
        }
    } else {
        if b >= SIGN_BIT {
            false
        } else {
            aa < ab
        }
    }
}

/// Floor of the base-2 logarithm.
pub open spec fn spec_ilog2(m: nat) -> nat
    decreases m,
{
    if m <= 1 {
        0
    } else {
        1 + spec_ilog2(m / 2)
    }
}

pub proof fn lemma_ilog2_bounds(m: nat)
    requires
        m >= 1,
    ensures
        pow2(spec_ilog2(m)) <= m < pow2(spec_ilog2(m) + 1),
    decreases m,
{
    if m <= 1 {
        lemma2_to64();
    } else {
        let l = spec_ilog2(m / 2);
        lemma_ilog2_bounds(m / 2);
        lemma_pow2_unfold(l + 1);
        lemma_pow2_unfold(l + 2);
    }
}

pub proof fn lemma_ilog2_below(m: nat, j: nat)
    requires
        1 <= m < pow2(j + 1),
    ensures
        spec_ilog2(m) <= j,
{
    lemma_ilog2_bounds(m);
    if spec_ilog2(m) > j {
        if spec_ilog2(m) > j + 1 {
            lemma_pow2_strictly_increases(j + 1, spec_ilog2(m));
        }
    }
}

/// The exact integer a pattern denotes, when it is a zero or an integral
/// double of magnitude below 2^53; `None` for every other pattern.
pub open spec fn integral_value(b: u64) -> Option<int> {
    if is_zero(b) {
        Some(0int)
    } else if 1023 <= exp_bits(b) && exp_bits(b) <= 1075 {
        let sh = (1075 - exp_bits(b)) as nat;
        let full = (frac_bits(b) + EXP_UNIT) as nat;
        if full % pow2(sh) == 0 {
            let m = (full / pow2(sh)) as int;
            Some(
                if sign_bit(b) {
                    -m
                } else {
                    m
                },
            )
        } else {
            None
        }
    } else {
        None
    }
}

/// The bit pattern of the integral double for a magnitude `1 <= m < 2^53`.
pub open spec fn encode_mag(m: nat, neg: bool) -> u64 {
    let k = spec_ilog2(m);
    let full = m * pow2((52 - k) as nat);
    ((if neg {
        SIGN_BIT as nat
    } else {
        0
    }) + (1023 + k) * (EXP_UNIT as nat) + (full - EXP_UNIT as nat)) as u64
}

/// The bit pattern of the integral double for `-2^53 < n < 2^53`; zero encodes
/// as positive zero.
pub open spec fn encode_int(n: int) -> u64 {
    if n == 0 {
        ZERO_BITS
    } else if n > 0 {
        encode_mag(n as nat, false)
    } else {
        encode_mag((-n) as nat, true)
    }
}

pub fn pow2_u64(k: u64) -> (r: u64)
    requires
        k <= 63,
    ensures
        r as nat == pow2(k as nat),
{
    proof {
        lemma2_to64();
        lemma2_to64_rest();
    }
    let mut r: u64 = 1;
    let mut i: u64 = 0;
    while i < k
        invariant
            i <= k <= 63,
            r as nat == pow2(i as nat),
        decreases k - i,
    {
        proof {
            lemma_pow2_unfold((i + 1) as nat);
            lemma_pow2_strictly_increases((i + 1) as nat, 64);
            lemma2_to64_rest();
        }
        r = r * 2;
        i = i + 1;
    }
    r
}

/// Decodes a pattern to the exact integer it denotes, when there is one.
pub fn num_to_integral(b: u64) -> (r: Option<i64>)
    ensures
        match r {
            Some(n) => integral_value(b) == Some(n as int) && -(MAX_SAFE as int) < (n as int)
                && (n as int) < (MAX_SAFE as int),
            None => integral_value(b) is None,
        },
{
    let abs: u64 = b % SIGN_BIT;
    if abs == 0 {
        Some(0)
    } else {
        let e: u64 = abs / EXP_UNIT;
        if 1023 <= e && e <= 1075 {
            let sh: u64 = 1075 - e;
            let p: u64 = pow2_u64(sh);
            let frac: u64 = b % EXP_UNIT;
            let full: u64 = frac + EXP_UNIT;
            proof {
                lemma_pow2_pos(sh as nat);
            }
            if full % p == 0 {
                let m: u64 = full / p;
                let n: i64 = if b >= SIGN_BIT {
                    -(m as i64)
                } else {
                    m as i64
                };
                Some(n)
            } else {
                None
            }
        } else {
            None
        }
    }
}

/// Encodes an integer `-2^53 < n < 2^53` as the bit pattern of the equal double.
pub fn num_from_integral(n: i64) -> (r: u64)
    requires
        -(MAX_SAFE as int) < (n as int) && (n as int) < (MAX_SAFE as int),
    ensures
        r == encode_int(n as int),
{
    if n == 0 {
        return ZERO_BITS;
    }
    let neg: bool = n < 0;
    let m: u64 = if n < 0 {
        (-n) as u64
    } else {
        n as u64
    };
    let ghost mn: nat = m as nat;
    let mut k: u64 = 0;
    let mut t: u64 = m;
    proof {
        lemma2_to64_rest();
        lemma_ilog2_below(mn, 63);
        lemma_ilog2_bounds(mn);
    }
    while t >= 2
        invariant
            t >= 1,
            spec_ilog2(mn) == k as nat + spec_ilog2(t as nat),
            k as nat <= spec_ilog2(mn) <= 63,
        decreases t,
    {
        t = t / 2;
        k = k + 1;
    }
    proof {
        assert(spec_ilog2(t as nat) == 0);
        assert(k as nat == spec_ilog2(mn));
        lemma2_to64_rest();
        assert(pow2(53) == MAX_SAFE as nat);
        lemma_ilog2_below(mn, 52);
    }
    let sh: u64 = 52 - k;
    let p: u64 = pow2_u64(sh);
    proof {
        lemma_ilog2_bounds(mn);
        lemma_pow2_adds(k as nat, sh as nat);
        lemma_pow2_adds((k + 1) as nat, sh as nat);
        lemma2_to64();
        lemma2_to64_rest();
        assert((mn * pow2(sh as nat)) >= pow2(52)) by (nonlinear_arith)
            requires
                mn >= pow2(k as nat),
                pow2(k as nat) * pow2(sh as nat) == pow2(52),
                pow2(sh as nat) > 0,
        {
        }
        assert((mn * pow2(sh as nat)) < pow2(53)) by (nonlinear_arith)
            requires
                mn < pow2((k + 1) as nat),
                pow2((k + 1) as nat) * pow2(sh as nat) == pow2(53),
                pow2(sh as nat) > 0,
        {
        }
    }
    let full: u64 = m * p;
    let frac: u64 = full - EXP_UNIT;
    let e: u64 = 1023 + k;
    let bits: u64 = (if neg {
        SIGN_BIT
    } else {
        0
    }) + e * EXP_UNIT + frac;
    bits
}

pub fn num_le(a: u64, b: u64) -> (r: bool)
    ensures
        r == le_bits(a, b),
{
    let aa: u64 = a % SIGN_BIT;
    let ab: u64 = b % SIGN_BIT;
    if aa > INFINITY_BITS || ab > INFINITY_BITS {
        false
    } else if a >= SIGN_BIT {
        if b >= SIGN_BIT {
            ab <= aa
        } else {
            true
        }
    } else {
        if b >= SIGN_BIT {
            aa == 0 && ab == 0
        } else {
            aa <= ab
        }
    }
}

/// A pattern other than the two zeros never decodes to the integer zero.
pub proof fn lemma_integral_nonzero(b: u64)
    requires
        !is_zero(b),
    ensures
        integral_value(b) != Some(0int),
{
    if integral_value(b) is Some {
        let sh = (1075 - exp_bits(b)) as nat;
        let full = (frac_bits(b) + EXP_UNIT) as nat;
        lemma_pow2_pos(sh);
        lemma2_to64_rest();
        if sh < 52 {
            lemma_pow2_strictly_increases(sh, 52);
        }
        assert(full >= pow2(sh));
        assert(full / pow2(sh) >= 1) by (nonlinear_arith)
            requires
                full >= pow2(sh),
                pow2(sh) > 0,
        {
        }
    }
}

/// The same magnitude with the opposite sign bit.
pub open spec fn flip_sign(b: u64) -> u64 {
    if sign_bit(b) {
        (b - SIGN_BIT) as u64
    } else {
        (b + SIGN_BIT) as u64
    }
}

/// Addition. NaN and infinity behave as IEEE 754 prescribes; two exact
/// integral operands give the exact sum when it stays below 2^53 in
/// magnitude, and NaN when the operands or the sum leave the exact range.
pub open spec fn spec_add(a: u64, b: u64) -> u64 {
    if is_nan(a) || is_nan(b) {
        NAN_BITS
    } else if is_infinite(a) && is_infinite(b) {
        if sign_bit(a) == sign_bit(b) {
            a
        } else {
            NAN_BITS
        }
    } else if is_infinite(a) {
        a
    } else if is_infinite(b) {
        b
    } else {
        match (integral_value(a), integral_value(b)) {
            (Some(x), Some(y)) => {
                let s = x + y;
                if s == 0 {
                    if is_zero(a) && is_zero(b) && sign_bit(a) && sign_bit(b) {
                        NEG_ZERO_BITS
                    } else {
                        ZERO_BITS
                    }
                } else if -(MAX_SAFE as int) < s && s < (MAX_SAFE as int) {
                    encode_int(s)
                } else {
                    NAN_BITS
                }
            },
            _ => NAN_BITS,
        }
    }
}

/// Subtraction, under the same exactness rules as `spec_add`.
pub open spec fn spec_sub(a: u64, b: u64) -> u64 {
    if is_nan(a) || is_nan(b) {
        NAN_BITS
    } else if is_infinite(a) && is_infinite(b) {
        if sign_bit(a) != sign_bit(b) {
            a
        } else {
            NAN_BITS
        }
    } else if is_infinite(a) {
        a
    } else if is_infinite(b) {
        flip_sign(b)
    } else {
        match (integral_value(a), integral_value(b)) {
            (Some(x), Some(y)) => {
                let d = x - y;
                if d == 0 {
                    if is_zero(a) && is_zero(b) && sign_bit(a) && !sign_bit(b) {
                        NEG_ZERO_BITS
                    } else {
                        ZERO_BITS
                    }
                } else if -(MAX_SAFE as int) < d && d < (MAX_SAFE as int) {
                    encode_int(d)
                } else {
                    NAN_BITS
                }
            },
            _ => NAN_BITS,
        }
    }
}

/// Multiplication, under the same exactness rules as `spec_add`.
pub open spec fn spec_mul(a: u64, b: u64) -> u64 {
    if is_nan(a) || is_nan(b) {
        NAN_BITS
    } else if (is_infinite(a) && is_zero(b)) || (is_zero(a) && is_infinite(b)) {
        NAN_BITS
    } else if is_infinite(a) || is_infinite(b) {
        if sign_bit(a) != sign_bit(b) {
            NEG_INFINITY_BITS
        } else {
            INFINITY_BITS
        }
    } else if is_zero(a) || is_zero(b) {
        if sign_bit(a) != sign_bit(b) {
            NEG_ZERO_BITS
        } else {
            ZERO_BITS
        }
    } else {
        match (integral_value(a), integral_value(b)) {
            (Some(x), Some(y)) => {
                let p = x * y;
                if -(MAX_SAFE as int) < p && p < (MAX_SAFE as int) {
                    encode_int(p)
                } else {
                    NAN_BITS
                }
            },
            _ => NAN_BITS,
        }
    }
}

/// Division. A nonzero finite number divided by zero gives a signed infinity,
/// zero by zero gives NaN; an exact integral quotient is returned exactly and
/// an inexact one is reported as NaN.
pub open spec fn spec_div(a: u64, b: u64) -> u64 {
    if is_nan(a) || is_nan(b) {
        NAN_BITS
    } else if is_infinite(a) && is_infinite(b) {
        NAN_BITS
    } else if is_infinite(a) {
        if sign_bit(a) != sign_bit(b) {
            NEG_INFINITY_BITS
        } else {
            INFINITY_BITS
        }
    } else if is_infinite(b) {
        if sign_bit(a) != sign_bit(b) {
            NEG_ZERO_BITS
        } else {
            ZERO_BITS
        }
    } else if is_zero(b) {
        if is_zero(a) {
            NAN_BITS
        } else if sign_bit(a) != sign_bit(b) {
            NEG_INFINITY_BITS
        } else {
            INFINITY_BITS
        }
    } else if is_zero(a) {
        if sign_bit(a) != sign_bit(b) {
            NEG_ZERO_BITS
        } else {
            ZERO_BITS
        }
    } else {
        match (integral_value(a), integral_value(b)) {
            (Some(x), Some(y)) => {
                let mx = if x < 0 { -x } else { x };
                let my = if y < 0 { -y } else { y };
                if mx % my == 0 {
                    let q = mx / my;
                    encode_int(
                        if (x < 0) != (y < 0) {
                            -q
                        } else {
                            q
                        },
                    )
                } else {
                    NAN_BITS
                }
            },
            _ => NAN_BITS,
        }
    }
}

/// Remainder with the sign of the dividend, as the IEEE `fmod` operation:
/// `x rem y = x - trunc(x/y) * y`.
pub open spec fn spec_rem(a: u64, b: u64) -> u64 {
    if is_nan(a) || is_nan(b) {
        NAN_BITS
    } else if is_infinite(a) || is_zero(b) {
        NAN_BITS
    } else if is_infinite(b) || is_zero(a) {
        a
    } else {
        match (integral_value(a), integral_value(b)) {
            (Some(x), Some(y)) => {
                let mx = if x < 0 { -x } else { x };
                let my = if y < 0 { -y } else { y };
                let r = mx % my;
                if r == 0 {
                    if x < 0 {
                        NEG_ZERO_BITS
                    } else {
                        ZERO_BITS
                    }
                } else {
                    encode_int(
                        if x < 0 {
                            -r
                        } else {
                            r
                        },
                    )
                }
            },
            _ => NAN_BITS,
        }
    }
}

pub fn num_add(a: u64, b: u64) -> (r: u64)
    ensures
        r == spec_add(a, b),
{
    let aa: u64 = a % SIGN_BIT;
    let ab: u64 = b % SIGN_BIT;
    if aa > INFINITY_BITS || ab > INFINITY_BITS {
        NAN_BITS
    } else if aa == INFINITY_BITS && ab == INFINITY_BITS {
        if (a >= SIGN_BIT) == (b >= SIGN_BIT) {
            a
        } else {
            NAN_BITS
        }
    } else if aa == INFINITY_BITS {
        a
    } else if ab == INFINITY_BITS {
        b
    } else {
        match (num_to_integral(a), num_to_integral(b)) {
            (Some(x), Some(y)) => {
                let s: i64 = x + y;
                if s == 0 {
                    if aa == 0 && ab == 0 && a >= SIGN_BIT && b >= SIGN_BIT {
                        NEG_ZERO_BITS
                    } else {
                        ZERO_BITS
                    }
                } else if -(MAX_SAFE as i64) < s && s < (MAX_SAFE as i64) {
                    num_from_integral(s)
                } else {
                    NAN_BITS
                }
            },
            _ => NAN_BITS,
        }
    }
}

pub fn num_sub(a: u64, b: u64) -> (r: u64)
    ensures
        r == spec_sub(a, b),
{
    let aa: u64 = a % SIGN_BIT;
    let ab: u64 = b % SIGN_BIT;
    if aa > INFINITY_BITS || ab > INFINITY_BITS {
        NAN_BITS
    } else if aa == INFINITY_BITS && ab == INFINITY_BITS {
        if (a >= SIGN_BIT) != (b >= SIGN_BIT) {
            a
        } else {
            NAN_BITS
        }
    } else if aa == INFINITY_BITS {
        a
    } else if ab == INFINITY_BITS {
        if b >= SIGN_BIT {
            b - SIGN_BIT
        } else {
            b + SIGN_BIT
        }
    } else {
        match (num_to_integral(a), num_to_integral(b)) {
            (Some(x), Some(y)) => {
                let d: i64 = x - y;
                if d == 0 {
                    if aa == 0 && ab == 0 && a >= SIGN_BIT && b < SIGN_BIT {
                        NEG_ZERO_BITS
                    } else {
                        ZERO_BITS
                    }
                } else if -(MAX_SAFE as i64) < d && d < (MAX_SAFE as i64) {
                    num_from_integral(d)
                } else {
                    NAN_BITS
                }
            },
            _ => NAN_BITS,
        }
    }
}

pub fn num_mul(a: u64, b: u64) -> (r: u64)
    ensures
        r == spec_mul(a, b),
{
    let aa: u64 = a % SIGN_BIT;
    let ab: u64 = b % SIGN_BIT;
    if aa > INFINITY_BITS || ab > INFINITY_BITS {
        NAN_BITS
    } else if (aa == INFINITY_BITS && ab == 0) || (aa == 0 && ab == INFINITY_BITS) {
        NAN_BITS
    } else if aa == INFINITY_BITS || ab == INFINITY_BITS {
        if (a >= SIGN_BIT) != (b >= SIGN_BIT) {
            NEG_INFINITY_BITS
        } else {
            INFINITY_BITS
        }
    } else if aa == 0 || ab == 0 {
        if (a >= SIGN_BIT) != (b >= SIGN_BIT) {
            NEG_ZERO_BITS
        } else {
            ZERO_BITS
        }
    } else {
        match (num_to_integral(a), num_to_integral(b)) {
            (Some(x), Some(y)) => {
                proof {
                    assert(-(0x4000000000000000000000000000 as int) < (x as int) * (y as int)
                        && (x as int) * (y as int) < (0x4000000000000000000000000000 as int))
                        by (nonlinear_arith)
                        requires
                            -(MAX_SAFE as int) < (x as int) < (MAX_SAFE as int),
                            -(MAX_SAFE as int) < (y as int) < (MAX_SAFE as int),
                    {
                    }
                }
                let p: i128 = (x as i128) * (y as i128);
                if -(MAX_SAFE as i128) < p && p < (MAX_SAFE as i128) {
                    num_from_integral(p as i64)
                } else {
                    NAN_BITS
                }
            },
            _ => NAN_BITS,
        }
    }
}

pub fn num_div(a: u64, b: u64) -> (r: u64)
    ensures
        r == spec_div(a, b),
{
    let aa: u64 = a % SIGN_BIT;
    let ab: u64 = b % SIGN_BIT;
    if aa > INFINITY_BITS || ab > INFINITY_BITS {
        NAN_BITS
    } else if aa == INFINITY_BITS && ab == INFINITY_BITS {
        NAN_BITS
    } else if aa == INFINITY_BITS {
        if (a >= SIGN_BIT) != (b >= SIGN_BIT) {
            NEG_INFINITY_BITS
        } else {
            INFINITY_BITS
        }
    } else if ab == INFINITY_BITS {
        if (a >= SIGN_BIT) != (b >= SIGN_BIT) {
            NEG_ZERO_BITS
        } else {
            ZERO_BITS
        }
    } else if ab == 0 {
        if aa == 0 {
            NAN_BITS
        } else if (a >= SIGN_BIT) != (b >= SIGN_BIT) {
            NEG_INFINITY_BITS
        } else {
            INFINITY_BITS
        }
    } else if aa == 0 {
        if (a >= SIGN_BIT) != (b >= SIGN_BIT) {
            NEG_ZERO_BITS
        } else {
            ZERO_BITS
        }
    } else {
        match (num_to_integral(a), num_to_integral(b)) {
            (Some(x), Some(y)) => {
                let mx: u64 = if x < 0 {
                    (-x) as u64
                } else {
                    x as u64
                };
                let my: u64 = if y < 0 {
                    (-y) as u64
                } else {
                    y as u64
                };
                proof {
                    lemma_integral_nonzero(b);
                }
                if mx % my == 0 {
                    let q: u64 = mx / my;
                    let sq: i64 = if (x < 0) != (y < 0) {
                        -(q as i64)
                    } else {
                        q as i64
                    };
                    num_from_integral(sq)
                } else {
                    NAN_BITS
                }
            },
            _ => NAN_BITS,
        }
    }
}

pub fn num_rem(a: u64, b: u64) -> (r: u64)
    ensures
        r == spec_rem(a, b),
{
    let aa: u64 = a % SIGN_BIT;
    let ab: u64 = b % SIGN_BIT;
    if aa > INFINITY_BITS || ab > INFINITY_BITS {
        NAN_BITS
    } else if aa == INFINITY_BITS || ab == 0 {
        NAN_BITS
    } else if ab == INFINITY_BITS || aa == 0 {
        a
    } else {
        match (num_to_integral(a), num_to_integral(b)) {
            (Some(x), Some(y)) => {
                let mx: u64 = if x < 0 {
                    (-x) as u64
                } else {
                    x as u64
                };
                let my: u64 = if y < 0 {
                    (-y) as u64
                } else {
                    y as u64
                };
                proof {
                    lemma_integral_nonzero(b);
                }
                let rm: u64 = mx % my;
                if rm == 0 {
                    if x < 0 {
                        NEG_ZERO_BITS
                    } else {
                        ZERO_BITS
                    }
                } else {
                    let sr: i64 = if x < 0 {
                        -(rm as i64)
                    } else {
                        rm as i64
                    };
                    num_from_integral(sr)
                }
            },
            _ => NAN_BITS,
        }
    }
}

pub open spec fn is_digit(c: char) -> bool {
    48 <= (c as u32) && (c as u32) <= 57
}

pub open spec fn digit_val(c: char) -> int {
    (c as u32) - 48
}

pub open spec fn all_digits_range(s: Seq<char>, i: int, j: int) -> bool {
    forall|k: int| i <= k < j ==> is_digit(#[trigger] s[k])
}

pub open spec fn all_zero_range(s: Seq<char>, i: int, j: int) -> bool {
    forall|k: int| i <= k < j ==> #[trigger] s[k] == '0'
}

/// The decimal value of the digits `s[i .. j]`.
pub open spec fn digits_val_range(s: Seq<char>, i: int, j: int) -> int
    decreases j - i,
{
    if j <= i {
        0
    } else {
        digits_val_range(s, i, j - 1) * 10 + digit_val(s[j - 1])
    }
}

/// The position of the first `.` at or after `i`.
pub open spec fn first_dot_from(s: Seq<char>, i: int) -> Option<int>
    decreases s.len() - i,
{
    if i < 0 || i >= s.len() {
        None
    } else if s[i] == '.' {
        Some(i)
    } else {
        first_dot_from(s, i + 1)
    }
}

pub proof fn lemma_digits_val_nonneg(s: Seq<char>, i: int, j: int)
    requires
        all_digits_range(s, i, j),
    ensures
        digits_val_range(s, i, j) >= 0,
    decreases j - i,
{
    if j > i {
        lemma_digits_val_nonneg(s, i, j - 1);
    }
}


/// Turns a parsed sign and integer magnitude into a pattern; magnitudes at or
/// above 2^53 leave the exact range and give NaN.
pub open spec fn signed_pattern(neg: bool, v: int) -> u64 {
    if v >= (MAX_SAFE as int) {
        NAN_BITS
    } else if v == 0 {
        if neg {
            NEG_ZERO_BITS
        } else {
            ZERO_BITS
        }
    } else if neg {
        encode_int(-v)
    } else {
        encode_int(v)
    }
}

/// The number a decimal string denotes: an optional sign, digits, and an
/// optional fraction whose digits must all be zero to stay in the exact
/// range.  Every other string, like every fractional or out-of-range value,
/// gives NaN.
pub open spec fn spec_parse_number(s: Seq<char>) -> u64 {
    let start: int = if s.len() > 0 && (s[0] == '-' || s[0] == '+') {
        1
    } else {
        0
    };
    let neg = s.len() > 0 && s[0] == '-';
    let len = s.len() as int;
    if start >= len {
        NAN_BITS
    } else {
        match first_dot_from(s, start) {
            Some(d) => {
                if all_digits_range(s, start, d) && all_digits_range(s, d + 1, len) && (start < d
                    || d + 1 < len) {
                    if all_zero_range(s, d + 1, len) {
                        signed_pattern(neg, digits_val_range(s, start, d))
                    } else {
                        NAN_BITS
                    }
                } else {
                    NAN_BITS
                }
            },
            None => {
                if all_digits_range(s, start, len) {
                    signed_pattern(neg, digits_val_range(s, start, len))
                } else {
                    NAN_BITS
                }
            },
        }
    }
}

/// Parses a decimal string to a pattern, per `spec_parse_number`.
#[verifier::loop_isolation(false)]
pub fn num_parse_str(s: &str) -> (r: u64)
    ensures
        r == spec_parse_number(s@),
{
    let n: usize = s.unicode_len();
    let mut start: usize = 0;
    let mut neg: bool = false;
    if n > 0 {
        let c0: char = s.get_char(0);
        if c0 == '-' {
            neg = true;
            start = 1;
        } else if c0 == '+' {
            start = 1;
        }
    }
    if start >= n {
        return NAN_BITS;
    }
    let mut dot: usize = n;
    let mut found: bool = false;
    let mut i: usize = start;
    while i < n && !found
        invariant
            start <= i <= n,
            n == s@.len(),
            found ==> dot < n && i == dot && first_dot_from(s@, start as int) == Some(dot as int),
            !found ==> dot == n && first_dot_from(s@, start as int) == first_dot_from(
                s@,
                i as int,
            ),
        decreases n - i, (if found { 0int } else { 1int }),
    {
        if s.get_char(i) == '.' {
            dot = i;
            found = true;
        } else {
            i = i + 1;
        }
    }
    let ghost fd = first_dot_from(s@, start as int);
    proof {
        if found {
            assert(fd == Some(dot as int));
        } else {
            assert(fd is None);
        }
    }
    let ip_end: usize = if found {
        dot
    } else {
        n
    };
    if found && start == dot && dot + 1 == n {
        return NAN_BITS;
    }
    let mut v: u64 = 0;
    let mut big: bool = false;
    let mut j: usize = start;
    while j < ip_end
        invariant
            start <= j <= ip_end <= n,
            n == s@.len(),
            all_digits_range(s@, start as int, j as int),
            big ==> digits_val_range(s@, start as int, j as int) >= (MAX_SAFE as int),
            !big ==> v as int == digits_val_range(s@, start as int, j as int),
            v < 0x200_0000_0000_0000,
        decreases ip_end - j,
    {
        let c: char = s.get_char(j);
        let cv: u32 = c as u32;
        if cv < 48 || cv > 57 {
            return NAN_BITS;
        }
        if big || v >= MAX_SAFE {
            proof {
                lemma_digits_val_nonneg(s@, start as int, j as int);
            }
            big = true;
        } else {
            v = v * 10 + ((cv - 48) as u64);
        }
        j = j + 1;
    }
    if found {
        let mut k: usize = dot + 1;
        while k < n
            invariant
                dot + 1 <= k <= n,
                n == s@.len(),
                all_digits_range(s@, dot + 1, k as int),
                all_zero_range(s@, dot + 1, k as int),
            decreases n - k,
        {
            let c: char = s.get_char(k);
            let cv: u32 = c as u32;
            if cv < 48 || cv > 57 {
                return NAN_BITS;
            }
            if cv != 48 {
                return NAN_BITS;
            }
            k = k + 1;
        }
    }
    if big || v >= MAX_SAFE {
        return NAN_BITS;
    }
    if v == 0 {
        if neg {
            NEG_ZERO_BITS
        } else {
            ZERO_BITS
        }
    } else {
        let m: i64 = if neg {
            -(v as i64)
        } else {
            v as i64
        };
        num_from_integral(m)
    }
}

} // verus!
