//! Exact Q16.16 fixed-point scalars.
//!
//! The engine's scalar type is a signed 32-bit fixed-point number with 16
//! fractional bits. All arithmetic is exact and checked: every operation
//! states precisely which inputs produce a value and what that value is,
//! so algebraic laws (such as the transform identity laws) are theorems
//! rather than approximations.

use vstd::prelude::*;

verus! {

/// One Q16.16 scalar: the represented number is `value / 65536`.
pub type Fp = i32;

/// The fixed-point representation of 1.
pub const FP_ONE: i32 = 65536;

/// Whether a mathematical value fits in a 32-bit scalar.
pub open spec fn fp_fits(x: int) -> bool {
    i32::MIN <= x <= i32::MAX
}

/// Division by an exact power of two, truncated toward zero (the rounding
/// the hardware's signed division performs).
pub open spec fn trunc_div_unit(x: int) -> int {
    if x >= 0 {
        x / 65536
    } else {
        -((-x) / 65536)
    }
}

/// The mathematical value of a fixed-point product before the range check.
pub open spec fn fp_mul_value(a: int, b: int) -> int {
    trunc_div_unit(a * b)
}

/// The mathematical value of the fixed-point reciprocal of `s`.
pub open spec fn fp_recip_value(s: int) -> int {
    if s >= 0 {
        0x1_0000_0000int / s
    } else {
        -(0x1_0000_0000int / (-s))
    }
}

/// Multiplying by the fixed-point 1 is exact: it returns the other factor.
pub proof fn lemma_fp_mul_one(x: int)
    requires
        fp_fits(x),
    ensures
        fp_mul_value(FP_ONE as int, x) == x,
        fp_mul_value(x, FP_ONE as int) == x,
{
    if x >= 0 {
        assert(65536 * x == x * 65536) by (nonlinear_arith);
        assert((x * 65536) / 65536 == x) by (nonlinear_arith);
    } else {
        assert(65536 * x == x * 65536) by (nonlinear_arith);
        assert(-(65536 * x) == (-x) * 65536) by (nonlinear_arith);
        assert(((-x) * 65536) / 65536 == -x) by (nonlinear_arith);
    }
}

/// Multiplying by zero gives zero.
pub proof fn lemma_fp_mul_zero(x: int)
    ensures
        fp_mul_value(0, x) == 0,
        fp_mul_value(x, 0) == 0,
{
    assert(0 * x == 0) by (nonlinear_arith);
    assert(x * 0 == 0) by (nonlinear_arith);
}

/// Checked fixed-point addition: the exact sum when it fits.
pub fn fp_add(a: Fp, b: Fp) -> (r: Option<Fp>)
    ensures
        r is Some <==> fp_fits(a + b),
        r matches Some(v) ==> v == a + b,
{
    let wide: i64 = a as i64 + b as i64;
    if i32::MIN as i64 <= wide && wide <= i32::MAX as i64 {
        Some(wide as i32)
    } else {
        None
    }
}

/// Checked fixed-point subtraction: the exact difference when it fits.
pub fn fp_sub(a: Fp, b: Fp) -> (r: Option<Fp>)
    ensures
        r is Some <==> fp_fits(a - b),
        r matches Some(v) ==> v == a - b,
{
    let wide: i64 = a as i64 - b as i64;
    if i32::MIN as i64 <= wide && wide <= i32::MAX as i64 {
        Some(wide as i32)
    } else {
        None
    }
}

/// Checked fixed-point negation: exact except on the minimum value.
pub fn fp_neg(a: Fp) -> (r: Option<Fp>)
    ensures
        r is Some <==> fp_fits(-a),
        r matches Some(v) ==> v == -a,
{
    if a == i32::MIN {
        None
    } else {
        Some(-a)
    }
}

/// Checked fixed-point multiplication: `a * b / 65536`, truncated toward
/// zero, when the result fits in 32 bits.
pub fn fp_mul(a: Fp, b: Fp) -> (r: Option<Fp>)
    ensures
        r is Some <==> fp_fits(fp_mul_value(a as int, b as int)),
        r matches Some(v) ==> v == fp_mul_value(a as int, b as int),
{
    let negative = (a < 0) != (b < 0);
    let ua: u64 = if a >= 0 {
        a as u64
    } else {
        (-(a as i64)) as u64
    };
    let ub: u64 = if b >= 0 {
        b as u64
    } else {
        (-(b as i64)) as u64
    };
    proof {
        assert(ua * ub <= 0x8000_0000u64 * 0x8000_0000u64) by (nonlinear_arith)
            requires
                ua <= 0x8000_0000u64,
                ub <= 0x8000_0000u64,
        ;
        if a >= 0 && b >= 0 {
            assert(a as int * b as int == ua as int * ub as int) by (nonlinear_arith)
                requires
                    a as int == ua as int,
                    b as int == ub as int,
            ;
        } else if a < 0 && b >= 0 {
            assert(a as int * b as int == -(ua as int * ub as int)) by (nonlinear_arith)
                requires
                    a as int == -(ua as int),
                    b as int == ub as int,
            ;
        } else if a >= 0 && b < 0 {
            assert(a as int * b as int == -(ua as int * ub as int)) by (nonlinear_arith)
                requires
                    a as int == ua as int,
                    b as int == -(ub as int),
            ;
        } else {
            assert(a as int * b as int == ua as int * ub as int) by (nonlinear_arith)
                requires
                    a as int == -(ua as int),
                    b as int == -(ub as int),
            ;
        }
    }
    let product: u64 = ua * ub;
    let q: u64 = product / 65536;
    if negative {
        if q <= 0x8000_0000u64 {
            let v: i32 = (-(q as i64)) as i32;
            proof {
                if a as int * b as int >= 0 {
                    assert(q == 0);
                }
            }
            Some(v)
        } else {
            None
        }
    } else {
        if q <= 0x7fff_ffffu64 {
            Some(q as i32)
        } else {
            None
        }
    }
}

/// Checked fixed-point reciprocal: `1 / s`, truncated toward zero, when
/// `s` is nonzero and the result fits in 32 bits.
pub fn fp_recip(s: Fp) -> (r: Option<Fp>)
    ensures
        r is Some <==> s != 0 && fp_fits(fp_recip_value(s as int)),
        r matches Some(v) ==> v == fp_recip_value(s as int),
{
    if s == 0 {
        return None;
    }
    let us: u64 = if s >= 0 {
        s as u64
    } else {
        (-(s as i64)) as u64
    };
    let q: u64 = 0x1_0000_0000u64 / us;
    if s < 0 {
        if q <= 0x8000_0000u64 {
            Some((-(q as i64)) as i32)
        } else {
            None
        }
    } else {
        if q <= 0x7fff_ffffu64 {
            Some(q as i32)
        } else {
            None
        }
    }
}

} // verus!
