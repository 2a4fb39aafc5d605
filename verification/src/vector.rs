//! Three-component fixed-point vectors, used interchangeably as points,
//! directions and colors. Every operation is pinned to a spec-level model
//! built from the raw scalar operations.

use vstd::prelude::*;

use crate::fx::Fx;
use crate::fx::add_raw;
use crate::fx::sub_raw;
use crate::fx::mul_raw;
use crate::fx::div_raw;
use crate::fx::sqrt_raw;
use crate::fx::lemma_sqrt_floor_bounds;
use crate::fx::MAX_RAW;
use crate::fx::SCALE;

verus! {

/// A vector of three fixed-point components.
#[derive(Clone, Copy, PartialEq, Eq, Structural, Debug)]
pub struct Vector {
    pub x: Fx,
    pub y: Fx,
    pub z: Fx,
}

/// Model of componentwise addition.
pub open spec fn spec_add(a: Vector, b: Vector) -> Vector {
    Vector {
        x: Fx { raw: add_raw(a.x.raw as int, b.x.raw as int) as i64 },
        y: Fx { raw: add_raw(a.y.raw as int, b.y.raw as int) as i64 },
        z: Fx { raw: add_raw(a.z.raw as int, b.z.raw as int) as i64 },
    }
}

/// Model of componentwise subtraction.
pub open spec fn spec_sub(a: Vector, b: Vector) -> Vector {
    Vector {
        x: Fx { raw: sub_raw(a.x.raw as int, b.x.raw as int) as i64 },
        y: Fx { raw: sub_raw(a.y.raw as int, b.y.raw as int) as i64 },
        z: Fx { raw: sub_raw(a.z.raw as int, b.z.raw as int) as i64 },
    }
}

/// Model of the componentwise (Hadamard) product.
pub open spec fn spec_mul(a: Vector, b: Vector) -> Vector {
    Vector {
        x: Fx { raw: mul_raw(a.x.raw as int, b.x.raw as int) as i64 },
        y: Fx { raw: mul_raw(a.y.raw as int, b.y.raw as int) as i64 },
        z: Fx { raw: mul_raw(a.z.raw as int, b.z.raw as int) as i64 },
    }
}

/// Model of the componentwise quotient.
pub open spec fn spec_div(a: Vector, b: Vector) -> Vector {
    Vector {
        x: Fx { raw: div_raw(a.x.raw as int, b.x.raw as int) as i64 },
        y: Fx { raw: div_raw(a.y.raw as int, b.y.raw as int) as i64 },
        z: Fx { raw: div_raw(a.z.raw as int, b.z.raw as int) as i64 },
    }
}

/// Model of scaling by a scalar.
pub open spec fn spec_scale(a: Vector, s: Fx) -> Vector {
    Vector {
        x: Fx { raw: mul_raw(a.x.raw as int, s.raw as int) as i64 },
        y: Fx { raw: mul_raw(a.y.raw as int, s.raw as int) as i64 },
        z: Fx { raw: mul_raw(a.z.raw as int, s.raw as int) as i64 },
    }
}

/// Model of division by a scalar.
pub open spec fn spec_div_s(a: Vector, s: Fx) -> Vector {
    Vector {
        x: Fx { raw: div_raw(a.x.raw as int, s.raw as int) as i64 },
        y: Fx { raw: div_raw(a.y.raw as int, s.raw as int) as i64 },
        z: Fx { raw: div_raw(a.z.raw as int, s.raw as int) as i64 },
    }
}

/// Model of negation.
pub open spec fn spec_neg(a: Vector) -> Vector {
    Vector {
        x: Fx { raw: (-(a.x.raw as int)) as i64 },
        y: Fx { raw: (-(a.y.raw as int)) as i64 },
        z: Fx { raw: (-(a.z.raw as int)) as i64 },
    }
}

/// Model of the dot product.
pub open spec fn spec_dot(a: Vector, b: Vector) -> Fx {
    Fx {
        raw: add_raw(
            add_raw(
                mul_raw(a.x.raw as int, b.x.raw as int),
                mul_raw(a.y.raw as int, b.y.raw as int),
            ),
            mul_raw(a.z.raw as int, b.z.raw as int),
        ) as i64,
    }
}

/// Model of the cross product.
pub open spec fn spec_cross(a: Vector, b: Vector) -> Vector {
    Vector {
        x: Fx {
            raw: sub_raw(
                mul_raw(a.y.raw as int, b.z.raw as int),
                mul_raw(a.z.raw as int, b.y.raw as int),
            ) as i64,
        },
        y: Fx {
            raw: sub_raw(
                mul_raw(a.z.raw as int, b.x.raw as int),
                mul_raw(a.x.raw as int, b.z.raw as int),
            ) as i64,
        },
        z: Fx {
            raw: sub_raw(
                mul_raw(a.x.raw as int, b.y.raw as int),
                mul_raw(a.y.raw as int, b.x.raw as int),
            ) as i64,
        },
    }
}

/// Model of the squared length.
pub open spec fn spec_squared_length(a: Vector) -> Fx {
    spec_dot(a, a)
}

/// Model of the length.
pub open spec fn spec_length(a: Vector) -> Fx {
    Fx { raw: sqrt_raw(spec_squared_length(a).raw as int) as i64 }
}

/// Model of normalization to unit length.
pub open spec fn spec_unit(a: Vector) -> Vector {
    spec_div_s(a, spec_length(a))
}

/// The square of any raw value, rescaled and saturated, is nonnegative.
pub proof fn lemma_mul_raw_self_nonneg(a: int)
    ensures
        mul_raw(a, a) >= 0,
{
    assert(crate::fx::abs_i(a) * crate::fx::abs_i(a) >= 0) by (nonlinear_arith);
}

/// A squared length is nonnegative.
pub proof fn lemma_squared_length_nonneg(a: Vector)
    ensures
        spec_squared_length(a).raw >= 0,
{
    lemma_mul_raw_self_nonneg(a.x.raw as int);
    lemma_mul_raw_self_nonneg(a.y.raw as int);
    lemma_mul_raw_self_nonneg(a.z.raw as int);
}

impl Vector {
    /// Well-formed: every component is in the representable range.
    pub open spec fn wf(self) -> bool {
        self.x.wf() && self.y.wf() && self.z.wf()
    }

    /// The zero vector, as a spec value.
    pub open spec fn spec_zeros() -> Vector {
        Vector { x: Fx { raw: 0 }, y: Fx { raw: 0 }, z: Fx { raw: 0 } }
    }

    /// The all-ones vector, as a spec value.
    pub open spec fn spec_ones() -> Vector {
        Vector { x: Fx { raw: SCALE }, y: Fx { raw: SCALE }, z: Fx { raw: SCALE } }
    }

    /// Builds a vector from its components.
    pub fn new(x: Fx, y: Fx, z: Fx) -> (r: Vector)
        ensures
            r == (Vector { x, y, z }),
    {
        Vector { x, y, z }
    }

    /// The zero vector.
    pub fn zeros() -> (r: Vector)
        ensures
            r == Vector::spec_zeros(),
            r.wf(),
    {
        Vector { x: Fx { raw: 0 }, y: Fx { raw: 0 }, z: Fx { raw: 0 } }
    }

    /// The all-ones vector.
    pub fn ones() -> (r: Vector)
        ensures
            r == Vector::spec_ones(),
            r.wf(),
    {
        Vector { x: Fx { raw: SCALE }, y: Fx { raw: SCALE }, z: Fx { raw: SCALE } }
    }

    /// Componentwise sum.
    pub fn add(self, other: Vector) -> (r: Vector)
        requires
            self.wf(),
            other.wf(),
        ensures
            r == spec_add(self, other),
            r.wf(),
    {
        Vector { x: self.x.add(other.x), y: self.y.add(other.y), z: self.z.add(other.z) }
    }

    /// Componentwise difference.
    pub fn sub(self, other: Vector) -> (r: Vector)
        requires
            self.wf(),
            other.wf(),
        ensures
            r == spec_sub(self, other),
            r.wf(),
    {
        Vector { x: self.x.sub(other.x), y: self.y.sub(other.y), z: self.z.sub(other.z) }
    }

    /// Componentwise (Hadamard) product.
    pub fn mul(self, other: Vector) -> (r: Vector)
        requires
            self.wf(),
            other.wf(),
        ensures
            r == spec_mul(self, other),
            r.wf(),
    {
        Vector { x: self.x.mul(other.x), y: self.y.mul(other.y), z: self.z.mul(other.z) }
    }

    /// Componentwise quotient; every component of the divisor must be
    /// nonzero.
    pub fn div(self, other: Vector) -> (r: Vector)
        requires
            self.wf(),
            other.wf(),
            other.x.raw != 0,
            other.y.raw != 0,
            other.z.raw != 0,
        ensures
            r == spec_div(self, other),
            r.wf(),
    {
        Vector { x: self.x.div(other.x), y: self.y.div(other.y), z: self.z.div(other.z) }
    }

    /// Scaling by a scalar.
    pub fn scale(self, s: Fx) -> (r: Vector)
        requires
            self.wf(),
            s.wf(),
        ensures
            r == spec_scale(self, s),
            r.wf(),
    {
        Vector { x: self.x.mul(s), y: self.y.mul(s), z: self.z.mul(s) }
    }

    /// Division by a scalar.
    pub fn div_s(self, s: Fx) -> (r: Vector)
        requires
            self.wf(),
            s.wf(),
            s.raw != 0,
        ensures
            r == spec_div_s(self, s),
            r.wf(),
    {
        Vector { x: self.x.div(s), y: self.y.div(s), z: self.z.div(s) }
    }

    /// Negation.
    pub fn neg(self) -> (r: Vector)
        requires
            self.wf(),
        ensures
            r == spec_neg(self),
            r.wf(),
    {
        Vector { x: self.x.neg(), y: self.y.neg(), z: self.z.neg() }
    }

    /// Dot product.
    pub fn dot(self, other: Vector) -> (r: Fx)
        requires
            self.wf(),
            other.wf(),
        ensures
            r == spec_dot(self, other),
            r.wf(),
    {
        self.x.mul(other.x).add(self.y.mul(other.y)).add(self.z.mul(other.z))
    }

    /// Cross product.
    pub fn cross(self, other: Vector) -> (r: Vector)
        requires
            self.wf(),
            other.wf(),
        ensures
            r == spec_cross(self, other),
            r.wf(),
    {
        Vector {
            x: self.y.mul(other.z).sub(self.z.mul(other.y)),
            y: self.z.mul(other.x).sub(self.x.mul(other.z)),
            z: self.x.mul(other.y).sub(self.y.mul(other.x)),
        }
    }

    /// Squared length: the dot product with itself.
    pub fn squared_length(self) -> (r: Fx)
        requires
            self.wf(),
        ensures
            r == spec_squared_length(self),
            r.wf(),
            r.raw >= 0,
    {
        proof {
            lemma_squared_length_nonneg(self);
        }
        self.dot(self)
    }

    /// Length: the square root of the squared length.
    pub fn length(self) -> (r: Fx)
        requires
            self.wf(),
        ensures
            r == spec_length(self),
            r.wf(),
            r.raw >= 0,
    {
        self.squared_length().sqrt()
    }

    /// Normalization: division by the length. The caller keeps degenerate
    /// vectors out, as directions of zero length have no unit form.
    pub fn unit(self) -> (r: Vector)
        requires
            self.wf(),
            spec_length(self).raw != 0,
        ensures
            r == spec_unit(self),
            r.wf(),
    {
        let l = self.length();
        self.div_s(l)
    }
}

} // verus!
