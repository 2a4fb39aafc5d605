//! Fixed-point scalars.
//!
//! A scalar holds `raw / SCALE` with `SCALE = 2^16`. Every arithmetic
//! operation saturates its result to `[-MAX_RAW, MAX_RAW]`, so the type is
//! closed under its operations and no computation can overflow. The exact
//! value of each operation, saturation included, is given by a spec
//! function, and every executable operation is proved equal to it.

use vstd::prelude::*;

verus! {

/// Number of raw units per whole unit: scalars have 16 fractional bits.
pub const SCALE: i64 = 65536;

/// Largest raw magnitude a scalar may hold (2^40), i.e. values stay in
/// about [-2^24, 2^24]. Products of two in-range raw values fit easily
/// into 128 bits, which keeps every operation computable.
pub const MAX_RAW: i64 = 1099511627776;

/// A fixed-point scalar: the represented value is `raw / SCALE`.
#[derive(Clone, Copy, PartialEq, Eq, Structural, Debug)]
pub struct Fx {
    pub raw: i64,
}

/// Magnitude of an integer.
pub open spec fn abs_i(v: int) -> int {
    if v < 0 { -v } else { v }
}

/// Saturation of a raw value to the representable range.
pub open spec fn clamp_raw(v: int) -> int {
    if v > MAX_RAW as int {
        MAX_RAW as int
    } else if v < -(MAX_RAW as int) {
        -(MAX_RAW as int)
    } else {
        v
    }
}

/// Raw value of a sum.
pub open spec fn add_raw(a: int, b: int) -> int {
    clamp_raw(a + b)
}

/// Raw value of a difference.
pub open spec fn sub_raw(a: int, b: int) -> int {
    clamp_raw(a - b)
}

/// Raw value of a product: magnitudes are multiplied, rescaled rounding
/// toward zero, then the sign is applied and the result saturated.
pub open spec fn mul_raw(a: int, b: int) -> int {
    let m = (abs_i(a) * abs_i(b)) / (SCALE as int);
    if (a < 0) != (b < 0) {
        clamp_raw(-m)
    } else {
        clamp_raw(m)
    }
}

/// Raw value of a quotient, rounding toward zero; unspecified use with
/// `b == 0` is ruled out by the callers' preconditions.
pub open spec fn div_raw(a: int, b: int) -> int {
    let m = (abs_i(a) * (SCALE as int)) / abs_i(b);
    if (a < 0) != (b < 0) {
        clamp_raw(-m)
    } else {
        clamp_raw(m)
    }
}

/// Integer square root, rounded down; zero on negative input.
pub open spec fn sqrt_floor(x: int) -> int
    decreases x,
{
    if x <= 0 {
        0
    } else {
        let r = sqrt_floor(x - 1);
        if (r + 1) * (r + 1) <= x {
            r + 1
        } else {
            r
        }
    }
}

/// `sqrt_floor(x)` is the greatest integer whose square is at most `x`.
pub proof fn lemma_sqrt_floor_bounds(x: int)
    requires
        x >= 0,
    ensures
        sqrt_floor(x) >= 0,
        sqrt_floor(x) * sqrt_floor(x) <= x,
        x < (sqrt_floor(x) + 1) * (sqrt_floor(x) + 1),
    decreases x,
{
    if x <= 0 {
    } else {
        let r = sqrt_floor(x - 1);
        lemma_sqrt_floor_bounds(x - 1);
        if (r + 1) * (r + 1) <= x {
            assert(sqrt_floor(x) == r + 1);
            assert(x < (r + 1 + 1) * (r + 1 + 1)) by (nonlinear_arith)
                requires
                    x - 1 < (r + 1) * (r + 1),
                    r >= 0,
            ;
        } else {
            assert(sqrt_floor(x) == r);
        }
    }
}

/// Any number with the characteristic bracketing of the rounded-down square
/// root is that square root.
pub proof fn lemma_sqrt_floor_unique(x: int, r: int)
    requires
        x >= 0,
        r >= 0,
        r * r <= x,
        x < (r + 1) * (r + 1),
    ensures
        r == sqrt_floor(x),
{
    lemma_sqrt_floor_bounds(x);
    let s = sqrt_floor(x);
    assert(r == s) by (nonlinear_arith)
        requires
            r * r <= x,
            x < (r + 1) * (r + 1),
            s * s <= x,
            x < (s + 1) * (s + 1),
            r >= 0,
            s >= 0,
    ;
}

/// Saturation keeps order.
pub proof fn lemma_clamp_monotone(v1: int, v2: int)
    requires
        v1 <= v2,
    ensures
        clamp_raw(v1) <= clamp_raw(v2),
{
}

/// For a positive divisor, fixed-point division keeps the order of its
/// numerators.
pub proof fn lemma_div_raw_monotone(a1: int, a2: int, b: int)
    requires
        a1 <= a2,
        b > 0,
    ensures
        div_raw(a1, b) <= div_raw(a2, b),
{
    let s = SCALE as int;
    if a1 >= 0 {
        assert(a1 * s <= a2 * s) by (nonlinear_arith)
            requires
                a1 <= a2,
                s > 0,
        ;
        vstd::arithmetic::div_mod::lemma_div_is_ordered(a1 * s, a2 * s, b);
        lemma_clamp_monotone((a1 * s) / b, (a2 * s) / b);
    } else if a2 < 0 {
        assert((-a2) * s <= (-a1) * s) by (nonlinear_arith)
            requires
                -a2 <= -a1,
                s > 0,
        ;
        vstd::arithmetic::div_mod::lemma_div_is_ordered((-a2) * s, (-a1) * s, b);
        lemma_clamp_monotone(-(((-a1) * s) / b), -(((-a2) * s) / b));
    } else {
        assert((-a1) * s >= 0) by (nonlinear_arith)
            requires
                -a1 >= 0,
                s >= 0,
        ;
        assert(a2 * s >= 0) by (nonlinear_arith)
            requires
                a2 >= 0,
                s >= 0,
        ;
        vstd::arithmetic::div_mod::lemma_div_pos_is_pos((-a1) * s, b);
        vstd::arithmetic::div_mod::lemma_div_pos_is_pos(a2 * s, b);
        lemma_clamp_monotone(-(((-a1) * s) / b), 0);
        lemma_clamp_monotone(0, (a2 * s) / b);
    }
}

/// Raw value of a fixed-point square root of a nonnegative raw value.
pub open spec fn sqrt_raw(a: int) -> int {
    sqrt_floor(a * SCALE as int)
}

/// Multiplying an in-range raw value by the unit scalar gives it back.
pub proof fn lemma_mul_raw_one(a: int)
    requires
        -(MAX_RAW as int) <= a <= MAX_RAW as int,
    ensures
        mul_raw(a, SCALE as int) == a,
{
    assert(abs_i(SCALE as int) == SCALE as int);
    vstd::arithmetic::div_mod::lemma_div_by_multiple(abs_i(a), SCALE as int);
}

/// Multiplying any raw value by zero gives zero.
pub proof fn lemma_mul_raw_zero(a: int)
    ensures
        mul_raw(a, 0) == 0,
{
    assert(abs_i(a) * abs_i(0) == 0) by (nonlinear_arith)
        requires
            abs_i(0) == 0,
    ;
    assert(0int / (SCALE as int) == 0);
}

/// Adding or subtracting a zero raw value keeps an in-range value.
pub proof fn lemma_add_sub_raw_zero(a: int)
    requires
        -(MAX_RAW as int) <= a <= MAX_RAW as int,
    ensures
        add_raw(a, 0) == a,
        sub_raw(a, 0) == a,
{
}

/// The square root of an in-range raw value is in range.
pub proof fn lemma_sqrt_raw_range(a: int)
    requires
        0 <= a <= MAX_RAW as int,
    ensures
        0 <= sqrt_raw(a) <= MAX_RAW as int,
{
    let s = SCALE as int;
    assert(a * s >= 0 && a * s <= (MAX_RAW as int) * s) by (nonlinear_arith)
        requires
            0 <= a <= MAX_RAW as int,
            s > 0,
    ;
    lemma_sqrt_floor_bounds(a * s);
    let r = sqrt_floor(a * s);
    assert(r <= MAX_RAW as int) by (nonlinear_arith)
        requires
            r * r <= (MAX_RAW as int) * (SCALE as int),
            r >= 0,
            MAX_RAW as int == 1099511627776,
            SCALE as int == 65536,
    ;
}

/// Integer square root by bisection.
pub fn isqrt(x: u64) -> (r: u64)
    requires
        x < 0x4000_0000_0000_0000,
    ensures
        r as int == sqrt_floor(x as int),
{
    let mut lo: u64 = 0;
    let mut hi: u64 = 0x8000_0000;
    assert((hi as int) * (hi as int) > x as int) by (nonlinear_arith)
        requires
            hi as int == 0x8000_0000,
            x < 0x4000_0000_0000_0000,
    ;
    while hi - lo > 1
        invariant
            lo < hi <= 0x8000_0000,
            (lo as int) * (lo as int) <= x as int,
            (hi as int) * (hi as int) > x as int,
        decreases hi - lo,
    {
        let mid: u64 = lo + (hi - lo) / 2;
        assert((mid as int) * (mid as int) <= 0x4000_0000_0000_0000) by (nonlinear_arith)
            requires
                0 <= mid as int <= 0x8000_0000,
        ;
        if mid * mid <= x {
            lo = mid;
        } else {
            hi = mid;
        }
    }
    proof {
        lemma_sqrt_floor_unique(x as int, lo as int);
    }
    lo
}

impl Fx {
    /// Well-formed: the raw value lies in the saturated range.
    pub open spec fn wf(self) -> bool {
        -(MAX_RAW as int) <= self.raw as int <= MAX_RAW as int
    }

    /// The zero scalar.
    pub open spec fn spec_zero() -> Fx {
        Fx { raw: 0 }
    }

    /// The unit scalar.
    pub open spec fn spec_one() -> Fx {
        Fx { raw: SCALE }
    }

    /// Builds a scalar from a raw fixed-point value, saturating it.
    pub fn from_raw(raw: i64) -> (r: Fx)
        ensures
            r.raw as int == clamp_raw(raw as int),
            r.wf(),
    {
        if raw > MAX_RAW {
            Fx { raw: MAX_RAW }
        } else if raw < -MAX_RAW {
            Fx { raw: -MAX_RAW }
        } else {
            Fx { raw }
        }
    }

    /// Builds the scalar for a whole number, saturating it.
    pub fn from_i64(v: i64) -> (r: Fx)
        ensures
            r.raw as int == clamp_raw(v as int * SCALE as int),
            r.wf(),
    {
        let wide: i128 = (v as i128) * (SCALE as i128);
        if wide > MAX_RAW as i128 {
            Fx { raw: MAX_RAW }
        } else if wide < -(MAX_RAW as i128) {
            Fx { raw: -MAX_RAW }
        } else {
            Fx { raw: wide as i64 }
        }
    }

    /// The zero scalar.
    pub fn zero() -> (r: Fx)
        ensures
            r == Fx::spec_zero(),
    {
        Fx { raw: 0 }
    }

    /// The unit scalar.
    pub fn one() -> (r: Fx)
        ensures
            r == Fx::spec_one(),
    {
        Fx { raw: SCALE }
    }

    /// Saturating addition.
    pub fn add(self, other: Fx) -> (r: Fx)
        requires
            self.wf(),
            other.wf(),
        ensures
            r.raw as int == add_raw(self.raw as int, other.raw as int),
            r.wf(),
    {
        let s: i64 = self.raw + other.raw;
        if s > MAX_RAW {
            Fx { raw: MAX_RAW }
        } else if s < -MAX_RAW {
            Fx { raw: -MAX_RAW }
        } else {
            Fx { raw: s }
        }
    }

    /// Saturating subtraction.
    pub fn sub(self, other: Fx) -> (r: Fx)
        requires
            self.wf(),
            other.wf(),
        ensures
            r.raw as int == sub_raw(self.raw as int, other.raw as int),
            r.wf(),
    {
        let s: i64 = self.raw - other.raw;
        if s > MAX_RAW {
            Fx { raw: MAX_RAW }
        } else if s < -MAX_RAW {
            Fx { raw: -MAX_RAW }
        } else {
            Fx { raw: s }
        }
    }

    /// Negation.
    pub fn neg(self) -> (r: Fx)
        requires
            self.wf(),
        ensures
            r.raw as int == -(self.raw as int),
            r.wf(),
    {
        Fx { raw: -self.raw }
    }

    /// Saturating fixed-point multiplication.
    pub fn mul(self, other: Fx) -> (r: Fx)
        requires
            self.wf(),
            other.wf(),
        ensures
            r.raw as int == mul_raw(self.raw as int, other.raw as int),
            r.wf(),
    {
        let am: i64 = if self.raw < 0 { -self.raw } else { self.raw };
        let bm: i64 = if other.raw < 0 { -other.raw } else { other.raw };
        assert((am as int) * (bm as int) <= (MAX_RAW as int) * (MAX_RAW as int)) by (nonlinear_arith)
            requires
                0 <= am as int <= MAX_RAW as int,
                0 <= bm as int <= MAX_RAW as int,
        ;
        let p: u128 = (am as u128) * (bm as u128);
        let q: u128 = p / (SCALE as u128);
        let m: i64 = if q > MAX_RAW as u128 { MAX_RAW } else { q as i64 };
        if (self.raw < 0) != (other.raw < 0) {
            Fx { raw: -m }
        } else {
            Fx { raw: m }
        }
    }

    /// Saturating fixed-point division, rounding toward zero.
    pub fn div(self, other: Fx) -> (r: Fx)
        requires
            self.wf(),
            other.wf(),
            other.raw != 0,
        ensures
            r.raw as int == div_raw(self.raw as int, other.raw as int),
            r.wf(),
    {
        let am: i64 = if self.raw < 0 { -self.raw } else { self.raw };
        let bm: i64 = if other.raw < 0 { -other.raw } else { other.raw };
        assert((am as int) * (SCALE as int) <= (MAX_RAW as int) * (SCALE as int)) by (nonlinear_arith)
            requires
                0 <= am as int <= MAX_RAW as int,
        ;
        let p: u128 = (am as u128) * (SCALE as u128);
        let q: u128 = p / (bm as u128);
        let m: i64 = if q > MAX_RAW as u128 { MAX_RAW } else { q as i64 };
        if (self.raw < 0) != (other.raw < 0) {
            Fx { raw: -m }
        } else {
            Fx { raw: m }
        }
    }

    /// Fixed-point square root: `sqrt(raw / SCALE) = sqrt(raw * SCALE) / SCALE`,
    /// rounded down.
    pub fn sqrt(self) -> (r: Fx)
        requires
            self.wf(),
            self.raw >= 0,
        ensures
            r.raw as int == sqrt_raw(self.raw as int),
            r.raw >= 0,
            r.wf(),
    {
        proof {
            assert((self.raw as int) * (SCALE as int) <= (MAX_RAW as int) * (SCALE as int)
                && (self.raw as int) * (SCALE as int) >= 0) by (nonlinear_arith)
                requires
                    0 <= self.raw as int <= MAX_RAW as int,
                    SCALE as int == 65536,
            ;
        }
        let x: u64 = (self.raw as u64) * (SCALE as u64);
        let root: u64 = isqrt(x);
        proof {
            lemma_sqrt_floor_bounds(x as int);
            assert(root as int <= MAX_RAW as int) by (nonlinear_arith)
                requires
                    (root as int) * (root as int) <= (MAX_RAW as int) * (SCALE as int),
                    root as int >= 0,
                    MAX_RAW as int == 1099511627776,
                    SCALE as int == 65536,
            ;
        }
        Fx { raw: root as i64 }
    }

    /// The smaller of two scalars.
    pub fn min(self, other: Fx) -> (r: Fx)
        ensures
            r == (if self.raw as int <= other.raw as int { self } else { other }),
    {
        if self.raw <= other.raw {
            self
        } else {
            other
        }
    }
}

} // verus!
