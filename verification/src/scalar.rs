//! Fixed-point scalars: the number type every tensor element is made of.
//!
//! A `Scalar` holds an `i64` count of *micros*, millionths of a logical
//! unit, so the logical value `1` is stored as `SCALE` micros.  Addition,
//! subtraction and negation are exact up to saturation at the bounds of
//! the representable range; multiplication scales the double-width
//! product back down by `SCALE`, truncating toward zero, and then
//! saturates.  Each operation's result is stated exactly, as an integer
//! function of the operands' micro counts.

use vstd::prelude::*;

verus! {

/// Number of micros in one logical unit.
pub const SCALE: i64 = 1_000_000;

/// Largest micro count a well-formed scalar may hold; the range is kept
/// symmetric, so `i64::MIN` is never stored and negation cannot overflow.
pub const RAW_LIMIT: i64 = i64::MAX;

/// Saturation: values beyond the representable range stop at its edge.
pub open spec fn clip(x: int) -> int {
    if x > RAW_LIMIT as int {
        RAW_LIMIT as int
    } else if x < -(RAW_LIMIT as int) {
        -(RAW_LIMIT as int)
    } else {
        x
    }
}

/// Saturating fixed-point addition on micro counts.
pub open spec fn fx_add(a: int, b: int) -> int {
    clip(a + b)
}

/// Saturating fixed-point subtraction on micro counts.
pub open spec fn fx_sub(a: int, b: int) -> int {
    clip(a - b)
}

/// Fixed-point negation on micro counts; exact, since the range is symmetric.
pub open spec fn fx_neg(a: int) -> int {
    -a
}

/// Division truncating toward zero, for a positive divisor.
pub open spec fn tdiv(n: int, d: int) -> int {
    if n >= 0 {
        n / d
    } else {
        -((-n) / d)
    }
}

/// Saturating fixed-point multiplication on micro counts: the exact
/// product is rescaled by `SCALE` with truncation toward zero.
pub open spec fn fx_mul(a: int, b: int) -> int {
    clip(tdiv(a * b, SCALE as int))
}

/// Division truncating toward zero for any divisor; division by zero
/// is defined as zero, so the operation is total.
pub open spec fn sdiv(n: int, d: int) -> int {
    if d == 0 {
        0
    } else {
        let an = if n >= 0 {
            n
        } else {
            -n
        };
        let ad = if d >= 0 {
            d
        } else {
            -d
        };
        if (n >= 0) == (d >= 0) {
            an / ad
        } else {
            -(an / ad)
        }
    }
}

/// Saturating fixed-point division on micro counts: the dividend is
/// raised by `SCALE` before the truncating division; dividing by zero
/// gives zero.
pub open spec fn fx_div(a: int, b: int) -> int {
    clip(sdiv(a * SCALE, b))
}

/// A fixed-point number: `raw` micros, i.e. the logical value `raw / SCALE`.
#[derive(Clone, Copy, Debug, PartialEq, Eq, Structural)]
pub struct Scalar {
    pub raw: i64,
}

impl View for Scalar {
    type V = int;

    open spec fn view(&self) -> int {
        self.raw as int
    }
}

/// Saturate a double-width intermediate back into a well-formed raw count.
fn clip_i128(x: i128) -> (r: i64)
    ensures
        r as int == clip(x as int),
{
    if x > RAW_LIMIT as i128 {
        RAW_LIMIT
    } else if x < -(RAW_LIMIT as i128) {
        -RAW_LIMIT
    } else {
        x as i64
    }
}

impl Scalar {
    /// A scalar is well formed when its micro count avoids `i64::MIN`,
    /// keeping the representable range symmetric around zero.
    pub open spec fn wf(self) -> bool {
        -(RAW_LIMIT as int) <= self@
    }

    /// The scalar holding exactly `raw` micros.
    pub fn from_micros(raw: i64) -> (r: Scalar)
        requires
            -(RAW_LIMIT as int) <= raw as int,
        ensures
            r.wf(),
            r@ == raw as int,
    {
        Scalar { raw }
    }

    /// The scalar holding the whole number `v` of logical units.
    pub fn from_int(v: i64) -> (r: Scalar)
        requires
            -(RAW_LIMIT as int) <= v * SCALE <= RAW_LIMIT as int,
        ensures
            r.wf(),
            r@ == v * SCALE,
    {
        Scalar { raw: v * SCALE }
    }

    /// The micro count this scalar holds.
    pub fn to_micros(self) -> (r: i64)
        ensures
            r as int == self@,
    {
        self.raw
    }

    /// The zero scalar.
    pub fn zero() -> (r: Scalar)
        ensures
            r.wf(),
            r@ == 0,
    {
        Scalar { raw: 0 }
    }

    /// The scalar for one logical unit.
    pub fn one() -> (r: Scalar)
        ensures
            r.wf(),
            r@ == SCALE as int,
    {
        Scalar { raw: SCALE }
    }

    /// Saturating addition.
    pub fn add(self, rhs: Scalar) -> (r: Scalar)
        requires
            self.wf(),
            rhs.wf(),
        ensures
            r.wf(),
            r@ == fx_add(self@, rhs@),
    {
        Scalar { raw: clip_i128(self.raw as i128 + rhs.raw as i128) }
    }

    /// Saturating subtraction.
    pub fn sub(self, rhs: Scalar) -> (r: Scalar)
        requires
            self.wf(),
            rhs.wf(),
        ensures
            r.wf(),
            r@ == fx_sub(self@, rhs@),
    {
        Scalar { raw: clip_i128(self.raw as i128 - rhs.raw as i128) }
    }

    /// Exact negation.
    pub fn neg(self) -> (r: Scalar)
        requires
            self.wf(),
        ensures
            r.wf(),
            r@ == fx_neg(self@),
    {
        Scalar { raw: -self.raw }
    }

    /// Saturating multiplication: the double-width product of the micro
    /// counts, rescaled by `SCALE` with truncation toward zero.
    pub fn mul(self, rhs: Scalar) -> (r: Scalar)
        requires
            self.wf(),
            rhs.wf(),
        ensures
            r.wf(),
            r@ == fx_mul(self@, rhs@),
    {
        proof {
            let a = self.raw as int;
            let b = rhs.raw as int;
            assert(-(RAW_LIMIT as int) * (RAW_LIMIT as int) <= a * b <= (RAW_LIMIT as int) * (
            RAW_LIMIT as int)) by (nonlinear_arith)
                requires
                    -(RAW_LIMIT as int) <= a <= RAW_LIMIT as int,
                    -(RAW_LIMIT as int) <= b <= RAW_LIMIT as int,
            ;
        }
        let p: i128 = (self.raw as i128) * (rhs.raw as i128);
        let neg: bool = p < 0;
        let pm: u128 = if neg {
            (-p) as u128
        } else {
            p as u128
        };
        let qm: u128 = pm / (SCALE as u128);
        proof {
            assert(qm as int == (pm as int) / (SCALE as int));
        }
        let q: i64 = if qm > RAW_LIMIT as u128 {
            RAW_LIMIT
        } else {
            qm as i64
        };
        let r: i64 = if neg {
            -q
        } else {
            q
        };
        Scalar { raw: r }
    }

    /// Saturating division: the micro counts are divided after raising
    /// the dividend by `SCALE`, truncating toward zero; dividing by
    /// zero gives zero.
    pub fn div(self, rhs: Scalar) -> (r: Scalar)
        requires
            self.wf(),
            rhs.wf(),
        ensures
            r.wf(),
            r@ == fx_div(self@, rhs@),
    {
        if rhs.raw == 0 {
            return Scalar { raw: 0 };
        }
        proof {
            let a = self.raw as int;
            assert(-(RAW_LIMIT as int) * (SCALE as int) <= a * (SCALE as int) <= (RAW_LIMIT as int)
                * (SCALE as int)) by (nonlinear_arith)
                requires
                    -(RAW_LIMIT as int) <= a <= RAW_LIMIT as int,
                    SCALE as int > 0,
            ;
        }
        let neg: bool = (self.raw < 0) != (rhs.raw < 0);
        let nm: u128 = if self.raw >= 0 {
            (self.raw as u128) * (SCALE as u128)
        } else {
            ((-self.raw) as u128) * (SCALE as u128)
        };
        let dm: u128 = if rhs.raw >= 0 {
            rhs.raw as u128
        } else {
            (-rhs.raw) as u128
        };
        let qm: u128 = nm / dm;
        let q: i64 = if qm > RAW_LIMIT as u128 {
            RAW_LIMIT
        } else {
            qm as i64
        };
        let r: i64 = if neg {
            -q
        } else {
            q
        };
        proof {
            let a = self.raw as int;
            let b = rhs.raw as int;
            let s = SCALE as int;
            if a >= 0 {
                assert(nm as int == a * s);
            } else {
                assert(nm as int == (-a) * s);
                assert((-a) * s == -(a * s)) by (nonlinear_arith);
            }
            assert(a >= 0 ==> a * s >= 0) by (nonlinear_arith)
                requires
                    s > 0,
            ;
            assert(a < 0 ==> a * s < 0) by (nonlinear_arith)
                requires
                    s > 0,
            ;
        }
        Scalar { raw: r }
    }

    /// Whether this scalar is strictly less than `rhs`.
    pub fn lt(self, rhs: Scalar) -> (r: bool)
        ensures
            r == (self@ < rhs@),
    {
        self.raw < rhs.raw
    }

    /// Whether this scalar is strictly negative.
    pub fn is_negative(self) -> (r: bool)
        ensures
            r == (self@ < 0),
    {
        self.raw < 0
    }
}

} // verus!
