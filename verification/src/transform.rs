use vstd::prelude::*;

verus! {

/// Mathematical model of a rigid transform: the exact map
/// `x -> (m * x + u) / s` over the rationals, held as integers.
pub ghost struct Rigid {
    pub m11: int,
    pub m12: int,
    pub m13: int,
    pub m21: int,
    pub m22: int,
    pub m23: int,
    pub m31: int,
    pub m32: int,
    pub m33: int,
    pub ux: int,
    pub uy: int,
    pub uz: int,
    pub s: int,
}

/// A position + orientation in a named reference space, exact.
///
/// `m` is the rotation matrix scaled by `s`; `u` is the translation scaled by
/// `s`. A value is well formed when `rigid(self@)` holds: the scale is
/// positive and `m * transpose(m) == transpose(m) * m == s^2 * identity`,
/// which says the orientation is a unit-norm rotation (possibly a reflection,
/// which composition and inversion also preserve).
#[derive(Clone, Copy, PartialEq, Eq, Structural, Debug)]
pub struct RigidTransform {
    pub m11: i64,
    pub m12: i64,
    pub m13: i64,
    pub m21: i64,
    pub m22: i64,
    pub m23: i64,
    pub m31: i64,
    pub m32: i64,
    pub m33: i64,
    pub ux: i64,
    pub uy: i64,
    pub uz: i64,
    pub s: i64,
}

impl View for RigidTransform {
    type V = Rigid;

    open spec fn view(&self) -> Rigid {
        Rigid {
            m11: self.m11 as int,
            m12: self.m12 as int,
            m13: self.m13 as int,
            m21: self.m21 as int,
            m22: self.m22 as int,
            m23: self.m23 as int,
            m31: self.m31 as int,
            m32: self.m32 as int,
            m33: self.m33 as int,
            ux: self.ux as int,
            uy: self.uy as int,
            uz: self.uz as int,
            s: self.s as int,
        }
    }
}

/// The rows of `m` are pairwise orthogonal and each has squared norm `s^2`.
pub open spec fn rows_orthonormal(r: Rigid) -> bool {
    &&& r.m11 * r.m11 + r.m12 * r.m12 + r.m13 * r.m13 == r.s * r.s
    &&& r.m21 * r.m21 + r.m22 * r.m22 + r.m23 * r.m23 == r.s * r.s
    &&& r.m31 * r.m31 + r.m32 * r.m32 + r.m33 * r.m33 == r.s * r.s
    &&& r.m11 * r.m21 + r.m12 * r.m22 + r.m13 * r.m23 == 0
    &&& r.m11 * r.m31 + r.m12 * r.m32 + r.m13 * r.m33 == 0
    &&& r.m21 * r.m31 + r.m22 * r.m32 + r.m23 * r.m33 == 0
}

/// The columns of `m` are pairwise orthogonal and each has squared norm `s^2`.
pub open spec fn cols_orthonormal(r: Rigid) -> bool {
    &&& r.m11 * r.m11 + r.m21 * r.m21 + r.m31 * r.m31 == r.s * r.s
    &&& r.m12 * r.m12 + r.m22 * r.m22 + r.m32 * r.m32 == r.s * r.s
    &&& r.m13 * r.m13 + r.m23 * r.m23 + r.m33 * r.m33 == r.s * r.s
    &&& r.m11 * r.m12 + r.m21 * r.m22 + r.m31 * r.m32 == 0
    &&& r.m11 * r.m13 + r.m21 * r.m23 + r.m31 * r.m33 == 0
    &&& r.m12 * r.m13 + r.m22 * r.m23 + r.m32 * r.m33 == 0
}

/// Well-formedness of a transform: positive scale and a scaled-orthogonal
/// matrix, so the map is invertible and preserves distances.
pub open spec fn rigid(r: Rigid) -> bool {
    &&& r.s >= 1
    &&& rows_orthonormal(r)
    &&& cols_orthonormal(r)
}

/// All entries of the transform are bounded by `b` in magnitude.
pub open spec fn bounded(r: Rigid, b: int) -> bool {
    &&& -b <= r.m11 <= b
    &&& -b <= r.m12 <= b
    &&& -b <= r.m13 <= b
    &&& -b <= r.m21 <= b
    &&& -b <= r.m22 <= b
    &&& -b <= r.m23 <= b
    &&& -b <= r.m31 <= b
    &&& -b <= r.m32 <= b
    &&& -b <= r.m33 <= b
    &&& -b <= r.ux <= b
    &&& -b <= r.uy <= b
    &&& -b <= r.uz <= b
    &&& -b <= r.s <= b
}

/// Composition `a` after `b`: first apply `b`, then `a`.
///
/// This is plain homogeneous matrix algebra on `[[m, u], [0, s]]`:
/// the matrix block is `a.m * b.m`, the translation block is
/// `a.m * b.u + b.s * a.u`, and the scale is `a.s * b.s`.
pub open spec fn compose_spec(a: Rigid, b: Rigid) -> Rigid {
    Rigid {
        m11: a.m11 * b.m11 + a.m12 * b.m21 + a.m13 * b.m31,
        m12: a.m11 * b.m12 + a.m12 * b.m22 + a.m13 * b.m32,
        m13: a.m11 * b.m13 + a.m12 * b.m23 + a.m13 * b.m33,
        m21: a.m21 * b.m11 + a.m22 * b.m21 + a.m23 * b.m31,
        m22: a.m21 * b.m12 + a.m22 * b.m22 + a.m23 * b.m32,
        m23: a.m21 * b.m13 + a.m22 * b.m23 + a.m23 * b.m33,
        m31: a.m31 * b.m11 + a.m32 * b.m21 + a.m33 * b.m31,
        m32: a.m31 * b.m12 + a.m32 * b.m22 + a.m33 * b.m32,
        m33: a.m31 * b.m13 + a.m32 * b.m23 + a.m33 * b.m33,
        ux: a.m11 * b.ux + a.m12 * b.uy + a.m13 * b.uz + b.s * a.ux,
        uy: a.m21 * b.ux + a.m22 * b.uy + a.m23 * b.uz + b.s * a.uy,
        uz: a.m31 * b.ux + a.m32 * b.uy + a.m33 * b.uz + b.s * a.uz,
        s: a.s * b.s,
    }
}

/// Inverse of a rigid transform: `(s * transpose(m), -transpose(m) * u, s^2)`.
///
/// Rigid transforms are invertible by construction; no error path exists.
pub open spec fn inverse_spec(r: Rigid) -> Rigid {
    Rigid {
        m11: r.s * r.m11,
        m12: r.s * r.m21,
        m13: r.s * r.m31,
        m21: r.s * r.m12,
        m22: r.s * r.m22,
        m23: r.s * r.m32,
        m31: r.s * r.m13,
        m32: r.s * r.m23,
        m33: r.s * r.m33,
        ux: -(r.m11 * r.ux + r.m21 * r.uy + r.m31 * r.uz),
        uy: -(r.m12 * r.ux + r.m22 * r.uy + r.m32 * r.uz),
        uz: -(r.m13 * r.ux + r.m23 * r.uy + r.m33 * r.uz),
        s: r.s * r.s,
    }
}

/// Two transforms denote the same rational map: cross-multiplied equality
/// of every entry against the scales.
pub open spec fn equiv(a: Rigid, b: Rigid) -> bool {
    &&& b.s * a.m11 == a.s * b.m11
    &&& b.s * a.m12 == a.s * b.m12
    &&& b.s * a.m13 == a.s * b.m13
    &&& b.s * a.m21 == a.s * b.m21
    &&& b.s * a.m22 == a.s * b.m22
    &&& b.s * a.m23 == a.s * b.m23
    &&& b.s * a.m31 == a.s * b.m31
    &&& b.s * a.m32 == a.s * b.m32
    &&& b.s * a.m33 == a.s * b.m33
    &&& b.s * a.ux == a.s * b.ux
    &&& b.s * a.uy == a.s * b.uy
    &&& b.s * a.uz == a.s * b.uz
}

/// Homogeneous point: the spatial position `(x, y, z) / w`.
pub ghost struct Hom {
    pub x: int,
    pub y: int,
    pub z: int,
    pub w: int,
}

/// A test point in homogeneous form, exact: the position `(x, y, z) / w`.
#[derive(Clone, Copy, PartialEq, Eq, Structural, Debug)]
pub struct HomPoint {
    pub x: i64,
    pub y: i64,
    pub z: i64,
    pub w: i64,
}

impl View for HomPoint {
    type V = Hom;

    open spec fn view(&self) -> Hom {
        Hom { x: self.x as int, y: self.y as int, z: self.z as int, w: self.w as int }
    }
}

/// The effect of a transform on a homogeneous point, by direct matrix
/// algebra: `[[m, u], [0, s]] * [p, w]`.
pub open spec fn apply_hom(r: Rigid, p: Hom) -> Hom {
    Hom {
        x: r.m11 * p.x + r.m12 * p.y + r.m13 * p.z + r.ux * p.w,
        y: r.m21 * p.x + r.m22 * p.y + r.m23 * p.z + r.uy * p.w,
        z: r.m31 * p.x + r.m32 * p.y + r.m33 * p.z + r.uz * p.w,
        w: r.s * p.w,
    }
}

/// Every entry of the transform fits in an `i64`.
pub open spec fn fits_i64(r: Rigid) -> bool {
    &&& -0x8000_0000_0000_0000 <= r.m11 <= 0x7FFF_FFFF_FFFF_FFFF
    &&& -0x8000_0000_0000_0000 <= r.m12 <= 0x7FFF_FFFF_FFFF_FFFF
    &&& -0x8000_0000_0000_0000 <= r.m13 <= 0x7FFF_FFFF_FFFF_FFFF
    &&& -0x8000_0000_0000_0000 <= r.m21 <= 0x7FFF_FFFF_FFFF_FFFF
    &&& -0x8000_0000_0000_0000 <= r.m22 <= 0x7FFF_FFFF_FFFF_FFFF
    &&& -0x8000_0000_0000_0000 <= r.m23 <= 0x7FFF_FFFF_FFFF_FFFF
    &&& -0x8000_0000_0000_0000 <= r.m31 <= 0x7FFF_FFFF_FFFF_FFFF
    &&& -0x8000_0000_0000_0000 <= r.m32 <= 0x7FFF_FFFF_FFFF_FFFF
    &&& -0x8000_0000_0000_0000 <= r.m33 <= 0x7FFF_FFFF_FFFF_FFFF
    &&& -0x8000_0000_0000_0000 <= r.ux <= 0x7FFF_FFFF_FFFF_FFFF
    &&& -0x8000_0000_0000_0000 <= r.uy <= 0x7FFF_FFFF_FFFF_FFFF
    &&& -0x8000_0000_0000_0000 <= r.uz <= 0x7FFF_FFFF_FFFF_FFFF
    &&& -0x8000_0000_0000_0000 <= r.s <= 0x7FFF_FFFF_FFFF_FFFF
}

/// Every coordinate of the point fits in an `i64`.
pub open spec fn hom_fits_i64(p: Hom) -> bool {
    &&& -0x8000_0000_0000_0000 <= p.x <= 0x7FFF_FFFF_FFFF_FFFF
    &&& -0x8000_0000_0000_0000 <= p.y <= 0x7FFF_FFFF_FFFF_FFFF
    &&& -0x8000_0000_0000_0000 <= p.z <= 0x7FFF_FFFF_FFFF_FFFF
    &&& -0x8000_0000_0000_0000 <= p.w <= 0x7FFF_FFFF_FFFF_FFFF
}

/// Magnitude bound on the inputs of the widening dot product, `2^62`: it
/// keeps every intermediate product within `i128`.
pub const ENTRY_BOUND: i64 = 0x4000_0000_0000_0000;

/// Exact four-term dot product, computed in `i128` so that no intermediate
/// overflows.
fn dot4w(a1: i64, b1: i64, a2: i64, b2: i64, a3: i64, b3: i64, a4: i64, b4: i64) -> (r: i128)
    requires
        -ENTRY_BOUND <= a1 <= ENTRY_BOUND,
        -ENTRY_BOUND <= b1 <= ENTRY_BOUND,
        -ENTRY_BOUND <= a2 <= ENTRY_BOUND,
        -ENTRY_BOUND <= b2 <= ENTRY_BOUND,
        -ENTRY_BOUND <= a3 <= ENTRY_BOUND,
        -ENTRY_BOUND <= b3 <= ENTRY_BOUND,
        -ENTRY_BOUND <= a4 <= ENTRY_BOUND,
        -ENTRY_BOUND <= b4 <= ENTRY_BOUND,
    ensures
        r as int == a1 * b1 + a2 * b2 + a3 * b3 + a4 * b4,
{
    proof {
        assert((-0x1000_0000_0000_0000_0000_0000_0000_0000 <= a1 * b1
            <= 0x1000_0000_0000_0000_0000_0000_0000_0000) && (-0x1000_0000_0000_0000_0000_0000_0000_0000
            <= a2 * b2 <= 0x1000_0000_0000_0000_0000_0000_0000_0000)
            && (-0x1000_0000_0000_0000_0000_0000_0000_0000 <= a3 * b3
            <= 0x1000_0000_0000_0000_0000_0000_0000_0000)
            && (-0x1000_0000_0000_0000_0000_0000_0000_0000 <= a4 * b4
            <= 0x1000_0000_0000_0000_0000_0000_0000_0000)) by (nonlinear_arith)
            requires
                -0x4000_0000_0000_0000 <= a1 <= 0x4000_0000_0000_0000,
                -0x4000_0000_0000_0000 <= b1 <= 0x4000_0000_0000_0000,
                -0x4000_0000_0000_0000 <= a2 <= 0x4000_0000_0000_0000,
                -0x4000_0000_0000_0000 <= b2 <= 0x4000_0000_0000_0000,
                -0x4000_0000_0000_0000 <= a3 <= 0x4000_0000_0000_0000,
                -0x4000_0000_0000_0000 <= b3 <= 0x4000_0000_0000_0000,
                -0x4000_0000_0000_0000 <= a4 <= 0x4000_0000_0000_0000,
                -0x4000_0000_0000_0000 <= b4 <= 0x4000_0000_0000_0000,
        ;
    }
    (a1 as i128) * (b1 as i128) + (a2 as i128) * (b2 as i128) + ((a3 as i128) * (b3 as i128) + (
    a4 as i128) * (b4 as i128))
}

/// Exact product of two machine integers, computed wide: the product of two
/// `i64` values always fits in an `i128`.
fn wide_mul(a: i64, b: i64) -> (r: i128)
    ensures
        r as int == a * b,
{
    proof {
        assert(-0x4000_0000_0000_0000_0000_0000_0000_0000 <= a * b
            <= 0x4000_0000_0000_0000_0000_0000_0000_0000) by (nonlinear_arith)
            requires
                -0x8000_0000_0000_0000 <= a <= 0x7FFF_FFFF_FFFF_FFFF,
                -0x8000_0000_0000_0000 <= b <= 0x7FFF_FFFF_FFFF_FFFF,
        ;
    }
    (a as i128) * (b as i128)
}

impl RigidTransform {
    /// The identity transform: zero translation, identity rotation.
    pub fn identity() -> (r: RigidTransform)
        ensures
            rigid(r@),
            r@ == (Rigid {
                m11: 1,
                m12: 0,
                m13: 0,
                m21: 0,
                m22: 1,
                m23: 0,
                m31: 0,
                m32: 0,
                m33: 1,
                ux: 0,
                uy: 0,
                uz: 0,
                s: 1,
            }),
    {
        RigidTransform {
            m11: 1,
            m12: 0,
            m13: 0,
            m21: 0,
            m22: 1,
            m23: 0,
            m31: 0,
            m32: 0,
            m33: 1,
            ux: 0,
            uy: 0,
            uz: 0,
            s: 1,
        }
    }

    /// Invert the transform.
    ///
    /// Inversion of a rigid transform is always well defined; the bounds only
    /// keep the exact integer entries inside `i64`.
    pub fn inverse(&self) -> (r: RigidTransform)
        requires
            bounded(self@, ENTRY_BOUND as int),
            fits_i64(inverse_spec(self@)),
        ensures
            r@ == inverse_spec(self@),
            rigid(self@) ==> rigid(r@),
    {
        proof {
            if rigid(self@) {
                lemma_inverse_rigid(self@);
            }
        }
        RigidTransform {
            m11: dot4w(self.s, self.m11, 0, 0, 0, 0, 0, 0) as i64,
            m12: dot4w(self.s, self.m21, 0, 0, 0, 0, 0, 0) as i64,
            m13: dot4w(self.s, self.m31, 0, 0, 0, 0, 0, 0) as i64,
            m21: dot4w(self.s, self.m12, 0, 0, 0, 0, 0, 0) as i64,
            m22: dot4w(self.s, self.m22, 0, 0, 0, 0, 0, 0) as i64,
            m23: dot4w(self.s, self.m32, 0, 0, 0, 0, 0, 0) as i64,
            m31: dot4w(self.s, self.m13, 0, 0, 0, 0, 0, 0) as i64,
            m32: dot4w(self.s, self.m23, 0, 0, 0, 0, 0, 0) as i64,
            m33: dot4w(self.s, self.m33, 0, 0, 0, 0, 0, 0) as i64,
            ux: (-dot4w(self.m11, self.ux, self.m21, self.uy, self.m31, self.uz, 0, 0)) as i64,
            uy: (-dot4w(self.m12, self.ux, self.m22, self.uy, self.m32, self.uz, 0, 0)) as i64,
            uz: (-dot4w(self.m13, self.ux, self.m23, self.uy, self.m33, self.uz, 0, 0)) as i64,
            s: dot4w(self.s, self.s, 0, 0, 0, 0, 0, 0) as i64,
        }
    }

    /// Compose `self` with `other` so that `other` applies first and `self`
    /// applies second, by homogeneous matrix algebra.
    pub fn pre_transform(&self, other: &RigidTransform) -> (r: RigidTransform)
        requires
            bounded(self@, ENTRY_BOUND as int),
            bounded(other@, ENTRY_BOUND as int),
            fits_i64(compose_spec(self@, other@)),
        ensures
            r@ == compose_spec(self@, other@),
            rigid(self@) && rigid(other@) ==> rigid(r@),
    {
        proof {
            if rigid(self@) && rigid(other@) {
                lemma_compose_rigid(self@, other@);
            }
        }
        let a = self;
        let b = other;
        RigidTransform {
            m11: dot4w(a.m11, b.m11, a.m12, b.m21, a.m13, b.m31, 0, 0) as i64,
            m12: dot4w(a.m11, b.m12, a.m12, b.m22, a.m13, b.m32, 0, 0) as i64,
            m13: dot4w(a.m11, b.m13, a.m12, b.m23, a.m13, b.m33, 0, 0) as i64,
            m21: dot4w(a.m21, b.m11, a.m22, b.m21, a.m23, b.m31, 0, 0) as i64,
            m22: dot4w(a.m21, b.m12, a.m22, b.m22, a.m23, b.m32, 0, 0) as i64,
            m23: dot4w(a.m21, b.m13, a.m22, b.m23, a.m23, b.m33, 0, 0) as i64,
            m31: dot4w(a.m31, b.m11, a.m32, b.m21, a.m33, b.m31, 0, 0) as i64,
            m32: dot4w(a.m31, b.m12, a.m32, b.m22, a.m33, b.m32, 0, 0) as i64,
            m33: dot4w(a.m31, b.m13, a.m32, b.m23, a.m33, b.m33, 0, 0) as i64,
            ux: dot4w(a.m11, b.ux, a.m12, b.uy, a.m13, b.uz, b.s, a.ux) as i64,
            uy: dot4w(a.m21, b.ux, a.m22, b.uy, a.m23, b.uz, b.s, a.uy) as i64,
            uz: dot4w(a.m31, b.ux, a.m32, b.uy, a.m33, b.uz, b.s, a.uz) as i64,
            s: dot4w(a.s, b.s, 0, 0, 0, 0, 0, 0) as i64,
        }
    }

    /// The exact effect of the transform on a homogeneous test point.
    pub fn transform_point(&self, p: &HomPoint) -> (q: HomPoint)
        requires
            bounded(self@, ENTRY_BOUND as int),
            -ENTRY_BOUND <= p.x <= ENTRY_BOUND,
            -ENTRY_BOUND <= p.y <= ENTRY_BOUND,
            -ENTRY_BOUND <= p.z <= ENTRY_BOUND,
            -ENTRY_BOUND <= p.w <= ENTRY_BOUND,
            hom_fits_i64(apply_hom(self@, p@)),
        ensures
            q@ == apply_hom(self@, p@),
    {
        HomPoint {
            x: dot4w(self.m11, p.x, self.m12, p.y, self.m13, p.z, self.ux, p.w) as i64,
            y: dot4w(self.m21, p.x, self.m22, p.y, self.m23, p.z, self.uy, p.w) as i64,
            z: dot4w(self.m31, p.x, self.m32, p.y, self.m33, p.z, self.uz, p.w) as i64,
            w: dot4w(self.s, p.w, 0, 0, 0, 0, 0, 0) as i64,
        }
    }

    /// Whether `self` and `other` denote the same rational map.
    pub fn same_transform(&self, other: &RigidTransform) -> (r: bool)
        ensures
            r == equiv(self@, other@),
    {
        let a = self;
        let b = other;
        wide_mul(b.s, a.m11) == wide_mul(a.s, b.m11) && wide_mul(b.s, a.m12) == wide_mul(
            a.s,
            b.m12,
        ) && wide_mul(b.s, a.m13) == wide_mul(a.s, b.m13) && wide_mul(b.s, a.m21) == wide_mul(
            a.s,
            b.m21,
        ) && wide_mul(b.s, a.m22) == wide_mul(a.s, b.m22) && wide_mul(b.s, a.m23) == wide_mul(
            a.s,
            b.m23,
        ) && wide_mul(b.s, a.m31) == wide_mul(a.s, b.m31) && wide_mul(b.s, a.m32) == wide_mul(
            a.s,
            b.m32,
        ) && wide_mul(b.s, a.m33) == wide_mul(a.s, b.m33) && wide_mul(b.s, a.ux) == wide_mul(
            a.s,
            b.ux,
        ) && wide_mul(b.s, a.uy) == wide_mul(a.s, b.uy) && wide_mul(b.s, a.uz) == wide_mul(
            a.s,
            b.uz,
        )
    }
}

/// The inverse of a rigid transform is rigid: its rows are the scaled
/// scaled columns of the matrix and inherit their orthonormality.
pub proof fn lemma_inverse_rigid(r: Rigid)
    requires
        rigid(r),
    ensures
        rigid(inverse_spec(r)),
{
    let i = inverse_spec(r);
    assert(i.s >= 1) by (nonlinear_arith)
        requires
            r.s >= 1,
            i.s == r.s * r.s,
    ;
    lemma_scaled_dot(r.s, r.m11, r.m21, r.m31, r.m11, r.m21, r.m31, r.s * r.s);
    lemma_scaled_dot(r.s, r.m12, r.m22, r.m32, r.m12, r.m22, r.m32, r.s * r.s);
    lemma_scaled_dot(r.s, r.m13, r.m23, r.m33, r.m13, r.m23, r.m33, r.s * r.s);
    lemma_scaled_dot(r.s, r.m11, r.m21, r.m31, r.m12, r.m22, r.m32, 0);
    lemma_scaled_dot(r.s, r.m11, r.m21, r.m31, r.m13, r.m23, r.m33, 0);
    lemma_scaled_dot(r.s, r.m12, r.m22, r.m32, r.m13, r.m23, r.m33, 0);
    lemma_scaled_dot(r.s, r.m11, r.m12, r.m13, r.m11, r.m12, r.m13, r.s * r.s);
    lemma_scaled_dot(r.s, r.m21, r.m22, r.m23, r.m21, r.m22, r.m23, r.s * r.s);
    lemma_scaled_dot(r.s, r.m31, r.m32, r.m33, r.m31, r.m32, r.m33, r.s * r.s);
    lemma_scaled_dot(r.s, r.m11, r.m12, r.m13, r.m21, r.m22, r.m23, 0);
    lemma_scaled_dot(r.s, r.m11, r.m12, r.m13, r.m31, r.m32, r.m33, 0);
    lemma_scaled_dot(r.s, r.m21, r.m22, r.m23, r.m31, r.m32, r.m33, 0);
    assert((r.s * r.s) * (r.s * r.s) == i.s * i.s) by (nonlinear_arith)
        requires
            i.s == r.s * r.s,
    ;
}

/// Pulling a common factor out of a three-term sum.
proof fn lemma_distrib3(t: int, x: int, y: int, z: int)
    by (nonlinear_arith)
    ensures
        t * x + t * y + t * z == t * (x + y + z),
        x * t + y * t + z * t == (x + y + z) * t,
{
}

/// Regrouping a product of four factors.
proof fn lemma_regroup4(p: int, q: int, r: int, t: int)
    by (nonlinear_arith)
    ensures
        (p * q) * (r * t) == (p * r) * (q * t),
{
}

/// Expanding a product of two three-term sums.
proof fn lemma_expand33(x1: int, x2: int, x3: int, y1: int, y2: int, y3: int)
    by (nonlinear_arith)
    ensures
        (x1 + x2 + x3) * (y1 + y2 + y3) == x1 * y1 + x1 * y2 + x1 * y3 + x2 * y1 + x2 * y2 + x2
            * y3 + x3 * y1 + x3 * y2 + x3 * y3,
{
}

/// Scaling both vectors of a dot product by `s` scales the product by `s^2`.
proof fn lemma_scaled_dot(s: int, a1: int, a2: int, a3: int, b1: int, b2: int, b3: int, d: int)
    requires
        a1 * b1 + a2 * b2 + a3 * b3 == d,
    ensures
        (s * a1) * (s * b1) + (s * a2) * (s * b2) + (s * a3) * (s * b3) == s * s * d,
{
    lemma_regroup4(s, a1, s, b1);
    lemma_regroup4(s, a2, s, b2);
    lemma_regroup4(s, a3, s, b3);
    lemma_distrib3(s * s, a1 * b1, a2 * b2, a3 * b3);
}

/// Rows `a` and `d` pushed through a matrix `b` with orthonormal rows keep
/// their dot product, scaled by `k`, the common squared norm of `b`'s rows.
proof fn lemma_mixed_dot(
    a1: int,
    a2: int,
    a3: int,
    d1: int,
    d2: int,
    d3: int,
    b11: int,
    b12: int,
    b13: int,
    b21: int,
    b22: int,
    b23: int,
    b31: int,
    b32: int,
    b33: int,
    k: int,
)
    by (nonlinear_arith)
    requires
        b11 * b11 + b12 * b12 + b13 * b13 == k,
        b21 * b21 + b22 * b22 + b23 * b23 == k,
        b31 * b31 + b32 * b32 + b33 * b33 == k,
        b11 * b21 + b12 * b22 + b13 * b23 == 0,
        b11 * b31 + b12 * b32 + b13 * b33 == 0,
        b21 * b31 + b22 * b32 + b23 * b33 == 0,
    ensures
        (a1 * b11 + a2 * b21 + a3 * b31) * (d1 * b11 + d2 * b21 + d3 * b31) + (a1 * b12 + a2 * b22
            + a3 * b32) * (d1 * b12 + d2 * b22 + d3 * b32) + (a1 * b13 + a2 * b23 + a3 * b33) * (d1
            * b13 + d2 * b23 + d3 * b33) == (a1 * d1 + a2 * d2 + a3 * d3) * k,
{
    lemma_expand33(a1 * b11, a2 * b21, a3 * b31, d1 * b11, d2 * b21, d3 * b31);
    lemma_expand33(a1 * b12, a2 * b22, a3 * b32, d1 * b12, d2 * b22, d3 * b32);
    lemma_expand33(a1 * b13, a2 * b23, a3 * b33, d1 * b13, d2 * b23, d3 * b33);
    lemma_regroup4(a1, b11, d1, b11);
    lemma_regroup4(a1, b11, d2, b21);
    lemma_regroup4(a1, b11, d3, b31);
    lemma_regroup4(a2, b21, d1, b11);
    lemma_regroup4(a2, b21, d2, b21);
    lemma_regroup4(a2, b21, d3, b31);
    lemma_regroup4(a3, b31, d1, b11);
    lemma_regroup4(a3, b31, d2, b21);
    lemma_regroup4(a3, b31, d3, b31);
    lemma_regroup4(a1, b12, d1, b12);
    lemma_regroup4(a1, b12, d2, b22);
    lemma_regroup4(a1, b12, d3, b32);
    lemma_regroup4(a2, b22, d1, b12);
    lemma_regroup4(a2, b22, d2, b22);
    lemma_regroup4(a2, b22, d3, b32);
    lemma_regroup4(a3, b32, d1, b12);
    lemma_regroup4(a3, b32, d2, b22);
    lemma_regroup4(a3, b32, d3, b32);
    lemma_regroup4(a1, b13, d1, b13);
    lemma_regroup4(a1, b13, d2, b23);
    lemma_regroup4(a1, b13, d3, b33);
    lemma_regroup4(a2, b23, d1, b13);
    lemma_regroup4(a2, b23, d2, b23);
    lemma_regroup4(a2, b23, d3, b33);
    lemma_regroup4(a3, b33, d1, b13);
    lemma_regroup4(a3, b33, d2, b23);
    lemma_regroup4(a3, b33, d3, b33);
    lemma_distrib3(a1 * d1, b11 * b11, b12 * b12, b13 * b13);
    lemma_distrib3(a1 * d2, b11 * b21, b12 * b22, b13 * b23);
    lemma_distrib3(a1 * d3, b11 * b31, b12 * b32, b13 * b33);
    lemma_distrib3(a2 * d1, b21 * b11, b22 * b12, b23 * b13);
    lemma_distrib3(a2 * d2, b21 * b21, b22 * b22, b23 * b23);
    lemma_distrib3(a2 * d3, b21 * b31, b22 * b32, b23 * b33);
    lemma_distrib3(a3 * d1, b31 * b11, b32 * b12, b33 * b13);
    lemma_distrib3(a3 * d2, b31 * b21, b32 * b22, b33 * b23);
    lemma_distrib3(a3 * d3, b31 * b31, b32 * b32, b33 * b33);
    assert(b11 * b21 + b12 * b22 + b13 * b23 == b21 * b11 + b22 * b12 + b23 * b13);
    assert(b11 * b31 + b12 * b32 + b13 * b33 == b31 * b11 + b32 * b12 + b33 * b13);
    assert(b21 * b31 + b22 * b32 + b23 * b33 == b31 * b21 + b32 * b22 + b33 * b23);
    lemma_distrib3(k, a1 * d1, a2 * d2, a3 * d3);
}

/// Composition preserves rigidity: the invariant of the model survives
/// homogeneous matrix multiplication.
pub proof fn lemma_compose_rigid(a: Rigid, b: Rigid)
    requires
        rigid(a),
        rigid(b),
    ensures
        rigid(compose_spec(a, b)),
{
    let c = compose_spec(a, b);
    assert(c.s >= 1) by (nonlinear_arith)
        requires
            a.s >= 1,
            b.s >= 1,
            c.s == a.s * b.s,
    ;
    let k = b.s * b.s;
    // Rows of `c` are the rows of `a` pushed through `b`.
    lemma_mixed_dot(
        a.m11, a.m12, a.m13, a.m11, a.m12, a.m13,
        b.m11, b.m12, b.m13, b.m21, b.m22, b.m23, b.m31, b.m32, b.m33, k,
    );
    lemma_mixed_dot(
        a.m21, a.m22, a.m23, a.m21, a.m22, a.m23,
        b.m11, b.m12, b.m13, b.m21, b.m22, b.m23, b.m31, b.m32, b.m33, k,
    );
    lemma_mixed_dot(
        a.m31, a.m32, a.m33, a.m31, a.m32, a.m33,
        b.m11, b.m12, b.m13, b.m21, b.m22, b.m23, b.m31, b.m32, b.m33, k,
    );
    lemma_mixed_dot(
        a.m11, a.m12, a.m13, a.m21, a.m22, a.m23,
        b.m11, b.m12, b.m13, b.m21, b.m22, b.m23, b.m31, b.m32, b.m33, k,
    );
    lemma_mixed_dot(
        a.m11, a.m12, a.m13, a.m31, a.m32, a.m33,
        b.m11, b.m12, b.m13, b.m21, b.m22, b.m23, b.m31, b.m32, b.m33, k,
    );
    lemma_mixed_dot(
        a.m21, a.m22, a.m23, a.m31, a.m32, a.m33,
        b.m11, b.m12, b.m13, b.m21, b.m22, b.m23, b.m31, b.m32, b.m33, k,
    );
    let ka = a.s * a.s;
    // Columns of `c` are the columns of `b` pushed through the transpose of
    // `a`, whose rows are the columns of `a`.
    lemma_mixed_dot(
        b.m11, b.m21, b.m31, b.m11, b.m21, b.m31,
        a.m11, a.m21, a.m31, a.m12, a.m22, a.m32, a.m13, a.m23, a.m33, ka,
    );
    lemma_mixed_dot(
        b.m12, b.m22, b.m32, b.m12, b.m22, b.m32,
        a.m11, a.m21, a.m31, a.m12, a.m22, a.m32, a.m13, a.m23, a.m33, ka,
    );
    lemma_mixed_dot(
        b.m13, b.m23, b.m33, b.m13, b.m23, b.m33,
        a.m11, a.m21, a.m31, a.m12, a.m22, a.m32, a.m13, a.m23, a.m33, ka,
    );
    lemma_mixed_dot(
        b.m11, b.m21, b.m31, b.m12, b.m22, b.m32,
        a.m11, a.m21, a.m31, a.m12, a.m22, a.m32, a.m13, a.m23, a.m33, ka,
    );
    lemma_mixed_dot(
        b.m11, b.m21, b.m31, b.m13, b.m23, b.m33,
        a.m11, a.m21, a.m31, a.m12, a.m22, a.m32, a.m13, a.m23, a.m33, ka,
    );
    lemma_mixed_dot(
        b.m12, b.m22, b.m32, b.m13, b.m23, b.m33,
        a.m11, a.m21, a.m31, a.m12, a.m22, a.m32, a.m13, a.m23, a.m33, ka,
    );
    assert((a.s * a.s) * (b.s * b.s) == c.s * c.s) by (nonlinear_arith)
        requires
            c.s == a.s * b.s,
    ;
    assert((b.s * b.s) * (a.s * a.s) == c.s * c.s) by (nonlinear_arith)
        requires
            c.s == a.s * b.s,
    ;
}

/// The point `p` with all four coordinates scaled by `k`: the same position
/// in homogeneous form.
pub open spec fn hom_scale(k: int, p: Hom) -> Hom {
    Hom { x: k * p.x, y: k * p.y, z: k * p.z, w: k * p.w }
}

/// Distributing a common factor over a four-term sum.
proof fn lemma_distrib4(t: int, x: int, y: int, z: int, w: int)
    by (nonlinear_arith)
    ensures
        t * x + t * y + t * z + t * w == t * (x + y + z + w),
        x * t + y * t + z * t + w * t == (x + y + z + w) * t,
{
}

/// Reassociating a product of three factors.
proof fn lemma_assoc(x: int, y: int, z: int)
    by (nonlinear_arith)
    ensures
        (x * y) * z == x * (y * z),
        (x * y) * z == y * (x * z),
{
}

/// A negated factor pulls the sign out of the product.
proof fn lemma_neg_mul(x: int, y: int)
    by (nonlinear_arith)
    ensures
        (-x) * y == -(x * y),
{
}

/// One row of a composed transform acting on a point equals the row of the
/// outer transform acting on the already-transformed point: pure expansion,
/// stitched together from small distribution and reassociation steps.
proof fn nl_row_action(
    a1: int,
    a2: int,
    a3: int,
    t: int,
    b11: int,
    b12: int,
    b13: int,
    b21: int,
    b22: int,
    b23: int,
    b31: int,
    b32: int,
    b33: int,
    bu1: int,
    bu2: int,
    bu3: int,
    bs: int,
    px: int,
    py: int,
    pz: int,
    pw: int,
)
    ensures
        (a1 * b11 + a2 * b21 + a3 * b31) * px + (a1 * b12 + a2 * b22 + a3 * b32) * py + (a1 * b13
            + a2 * b23 + a3 * b33) * pz + (a1 * bu1 + a2 * bu2 + a3 * bu3 + bs * t) * pw == a1 * (
        b11 * px + b12 * py + b13 * pz + bu1 * pw) + a2 * (b21 * px + b22 * py + b23 * pz + bu2
            * pw) + a3 * (b31 * px + b32 * py + b33 * pz + bu3 * pw) + t * (bs * pw),
{
    lemma_distrib3(px, a1 * b11, a2 * b21, a3 * b31);
    lemma_distrib3(py, a1 * b12, a2 * b22, a3 * b32);
    lemma_distrib3(pz, a1 * b13, a2 * b23, a3 * b33);
    lemma_distrib4(pw, a1 * bu1, a2 * bu2, a3 * bu3, bs * t);
    lemma_assoc(a1, b11, px);
    lemma_assoc(a2, b21, px);
    lemma_assoc(a3, b31, px);
    lemma_assoc(a1, b12, py);
    lemma_assoc(a2, b22, py);
    lemma_assoc(a3, b32, py);
    lemma_assoc(a1, b13, pz);
    lemma_assoc(a2, b23, pz);
    lemma_assoc(a3, b33, pz);
    lemma_assoc(a1, bu1, pw);
    lemma_assoc(a2, bu2, pw);
    lemma_assoc(a3, bu3, pw);
    lemma_assoc(bs, t, pw);
    lemma_distrib4(a1, b11 * px, b12 * py, b13 * pz, bu1 * pw);
    lemma_distrib4(a2, b21 * px, b22 * py, b23 * pz, bu2 * pw);
    lemma_distrib4(a3, b31 * px, b32 * py, b33 * pz, bu3 * pw);
}

/// The effect of a composed transform on a test point is the sequential
/// effect of its two factors: composition is direct matrix algebra.
pub proof fn lemma_compose_action(a: Rigid, b: Rigid, p: Hom)
    ensures
        apply_hom(compose_spec(a, b), p) == apply_hom(a, apply_hom(b, p)),
{
    nl_row_action(
        a.m11, a.m12, a.m13, a.ux,
        b.m11, b.m12, b.m13, b.m21, b.m22, b.m23, b.m31, b.m32, b.m33,
        b.ux, b.uy, b.uz, b.s, p.x, p.y, p.z, p.w,
    );
    nl_row_action(
        a.m21, a.m22, a.m23, a.uy,
        b.m11, b.m12, b.m13, b.m21, b.m22, b.m23, b.m31, b.m32, b.m33,
        b.ux, b.uy, b.uz, b.s, p.x, p.y, p.z, p.w,
    );
    nl_row_action(
        a.m31, a.m32, a.m33, a.uz,
        b.m11, b.m12, b.m13, b.m21, b.m22, b.m23, b.m31, b.m32, b.m33,
        b.ux, b.uy, b.uz, b.s, p.x, p.y, p.z, p.w,
    );
    lemma_assoc(a.s, b.s, p.w);
}

/// One coordinate of the round trip "apply `r`, then apply the inverse of
/// `r`", as a pure expansion over one column triple `c`, `e`, `f`: the
/// translation terms cancel outright and the spatial terms regroup into
/// dot products of the columns.
proof fn nl_left_inv_coord(
    c1: int,
    c2: int,
    c3: int,
    e1: int,
    e2: int,
    e3: int,
    f1: int,
    f2: int,
    f3: int,
    u1: int,
    u2: int,
    u3: int,
    s: int,
    px: int,
    py: int,
    pz: int,
    pw: int,
)
    ensures
        (s * c1) * (c1 * px + e1 * py + f1 * pz + u1 * pw) + (s * c2) * (c2 * px + e2 * py + f2
            * pz + u2 * pw) + (s * c3) * (c3 * px + e3 * py + f3 * pz + u3 * pw) + (-(c1 * u1 + c2
            * u2 + c3 * u3)) * (s * pw) == (s * (c1 * c1 + c2 * c2 + c3 * c3)) * px + (s * (c1 * e1
            + c2 * e2 + c3 * e3)) * py + (s * (c1 * f1 + c2 * f2 + c3 * f3)) * pz,
{
    lemma_distrib4(s * c1, c1 * px, e1 * py, f1 * pz, u1 * pw);
    lemma_distrib4(s * c2, c2 * px, e2 * py, f2 * pz, u2 * pw);
    lemma_distrib4(s * c3, c3 * px, e3 * py, f3 * pz, u3 * pw);
    lemma_assoc(s, c1, c1 * px);
    lemma_assoc(c1, c1, px);
    lemma_assoc(s, c2, c2 * px);
    lemma_assoc(c2, c2, px);
    lemma_assoc(s, c3, c3 * px);
    lemma_assoc(c3, c3, px);
    lemma_assoc(s, c1, e1 * py);
    lemma_assoc(c1, e1, py);
    lemma_assoc(s, c2, e2 * py);
    lemma_assoc(c2, e2, py);
    lemma_assoc(s, c3, e3 * py);
    lemma_assoc(c3, e3, py);
    lemma_assoc(s, c1, f1 * pz);
    lemma_assoc(c1, f1, pz);
    lemma_assoc(s, c2, f2 * pz);
    lemma_assoc(c2, f2, pz);
    lemma_assoc(s, c3, f3 * pz);
    lemma_assoc(c3, f3, pz);
    lemma_assoc(s, c1, u1 * pw);
    lemma_assoc(c1, u1, pw);
    lemma_assoc(s, c2, u2 * pw);
    lemma_assoc(c2, u2, pw);
    lemma_assoc(s, c3, u3 * pw);
    lemma_assoc(c3, u3, pw);
    lemma_neg_mul(c1 * u1 + c2 * u2 + c3 * u3, s * pw);
    lemma_distrib3(s * pw, c1 * u1, c2 * u2, c3 * u3);
    lemma_assoc(c1 * u1, s, pw);
    lemma_assoc(c2 * u2, s, pw);
    lemma_assoc(c3 * u3, s, pw);
    lemma_assoc(s, c1 * c1 + c2 * c2 + c3 * c3, px);
    lemma_distrib3(px, c1 * c1, c2 * c2, c3 * c3);
    lemma_distrib3(s, (c1 * c1) * px, (c2 * c2) * px, (c3 * c3) * px);
    lemma_assoc(s, c1 * e1 + c2 * e2 + c3 * e3, py);
    lemma_distrib3(py, c1 * e1, c2 * e2, c3 * e3);
    lemma_distrib3(s, (c1 * e1) * py, (c2 * e2) * py, (c3 * e3) * py);
    lemma_assoc(s, c1 * f1 + c2 * f2 + c3 * f3, pz);
    lemma_distrib3(pz, c1 * f1, c2 * f2, c3 * f3);
    lemma_distrib3(s, (c1 * f1) * pz, (c2 * f2) * pz, (c3 * f3) * pz);
}

/// Substituting a known value of a dot product inside a scaled coefficient.
proof fn lemma_dot_subst(s: int, d: int, k: int, p: int)
    requires
        d == k,
    ensures
        (s * d) * p == (s * k) * p,
{
}

/// A vanishing dot product wipes out its whole coefficient.
proof fn lemma_dot_zero(s: int, d: int, p: int)
    requires
        d == 0,
    ensures
        (s * d) * p == 0,
{
    assert(s * d == s * 0);
    assert(s * 0 == 0) by (nonlinear_arith);
    assert((s * d) * p == 0 * p);
    assert(0 * p == 0) by (nonlinear_arith);
}

/// Applying a rigid transform and then its inverse returns the test point,
/// scaled by the cube of the transform's scale: the inverse undoes the
/// transform exactly, and no error path exists.
pub proof fn lemma_left_inverse_action(r: Rigid, p: Hom)
    requires
        rigid(r),
    ensures
        apply_hom(inverse_spec(r), apply_hom(r, p)) == hom_scale(r.s * (r.s * r.s), p),
{
    nl_left_inv_coord(
        r.m11, r.m21, r.m31, r.m12, r.m22, r.m32, r.m13, r.m23, r.m33,
        r.ux, r.uy, r.uz, r.s, p.x, p.y, p.z, p.w,
    );
    nl_left_inv_coord(
        r.m12, r.m22, r.m32, r.m11, r.m21, r.m31, r.m13, r.m23, r.m33,
        r.ux, r.uy, r.uz, r.s, p.y, p.x, p.z, p.w,
    );
    nl_left_inv_coord(
        r.m13, r.m23, r.m33, r.m11, r.m21, r.m31, r.m12, r.m22, r.m32,
        r.ux, r.uy, r.uz, r.s, p.z, p.x, p.y, p.w,
    );
    lemma_assoc(r.s, r.s, r.s * p.w);
    lemma_assoc(r.s, r.s, p.w);
    lemma_assoc(r.s, r.s * r.s, p.w);
    lemma_dot_subst(r.s, r.m11 * r.m11 + r.m21 * r.m21 + r.m31 * r.m31, r.s * r.s, p.x);
    lemma_dot_zero(r.s, r.m11 * r.m12 + r.m21 * r.m22 + r.m31 * r.m32, p.y);
    lemma_dot_zero(r.s, r.m11 * r.m13 + r.m21 * r.m23 + r.m31 * r.m33, p.z);
    lemma_dot_subst(r.s, r.m12 * r.m12 + r.m22 * r.m22 + r.m32 * r.m32, r.s * r.s, p.y);
    lemma_dot_zero(r.s, r.m12 * r.m11 + r.m22 * r.m21 + r.m32 * r.m31, p.x);
    lemma_dot_zero(r.s, r.m12 * r.m13 + r.m22 * r.m23 + r.m32 * r.m33, p.z);
    lemma_dot_subst(r.s, r.m13 * r.m13 + r.m23 * r.m23 + r.m33 * r.m33, r.s * r.s, p.z);
    lemma_dot_zero(r.s, r.m13 * r.m11 + r.m23 * r.m21 + r.m33 * r.m31, p.x);
    lemma_dot_zero(r.s, r.m13 * r.m12 + r.m23 * r.m22 + r.m33 * r.m32, p.y);
    let q = apply_hom(r, p);
    let i = inverse_spec(r);
    assert(apply_hom(i, q).x == (r.s * (r.s * r.s)) * p.x);
    assert(apply_hom(i, q).y == (r.s * (r.s * r.s)) * p.y);
    assert(apply_hom(i, q).z == (r.s * (r.s * r.s)) * p.z);
    assert(apply_hom(i, q).w == (r.s * (r.s * r.s)) * p.w);
}

/// Cancelling a positive common factor.
proof fn lemma_cancel(k: int, x: int, y: int)
    by (nonlinear_arith)
    requires
        k >= 1,
        k * x == k * y,
    ensures
        x == y,
{
}

/// Swapping the composition order matters: a viewer pose that is a pure
/// rotation and an eye offset that is a pure translation compose to
/// different transforms in the two orders whenever the rotation actually
/// moves the offset vector. (With a rotation that leaves the offset fixed,
/// such as the identity pose, the two orders coincide.)
pub proof fn lemma_order_sensitive(pose: Rigid, off: Rigid)
    requires
        rigid(pose),
        rigid(off),
        pose.ux == 0,
        pose.uy == 0,
        pose.uz == 0,
        off.m11 == off.s,
        off.m22 == off.s,
        off.m33 == off.s,
        off.m12 == 0,
        off.m13 == 0,
        off.m21 == 0,
        off.m23 == 0,
        off.m31 == 0,
        off.m32 == 0,
        !(pose.m11 * off.ux + pose.m12 * off.uy + pose.m13 * off.uz == pose.s * off.ux
            && pose.m21 * off.ux + pose.m22 * off.uy + pose.m23 * off.uz == pose.s * off.uy
            && pose.m31 * off.ux + pose.m32 * off.uy + pose.m33 * off.uz == pose.s * off.uz),
    ensures
        !equiv(compose_spec(pose, off), compose_spec(off, pose)),
{
    let c1 = compose_spec(pose, off);
    let c2 = compose_spec(off, pose);
    assert(c1.s == c2.s);
    assert(c1.ux == pose.m11 * off.ux + pose.m12 * off.uy + pose.m13 * off.uz);
    assert(c2.ux == pose.s * off.ux);
    if equiv(c1, c2) {
        assert(c2.s * c1.ux == c1.s * c2.ux);
        assert(c2.s * c1.uy == c1.s * c2.uy);
        assert(c2.s * c1.uz == c1.s * c2.uz);
        assert(c1.s >= 1) by (nonlinear_arith)
            requires
                pose.s >= 1,
                off.s >= 1,
                c1.s == pose.s * off.s,
        ;
        lemma_cancel(c1.s, c1.ux, c2.ux);
        lemma_cancel(c1.s, c1.uy, c2.uy);
        lemma_cancel(c1.s, c1.uz, c2.uz);
        assert(false);
    }
}

/// Splitting a difference out of a product.
proof fn lemma_sub_mul(a: int, b: int, t: int)
    by (nonlinear_arith)
    ensures
        (a - b) * t == a * t - b * t,
{
}

/// When the cross dot products vanish and the row norm equals the squared
/// scale, the whole translation coefficient of the weight coordinate
/// cancels.
proof fn lemma_uw_zero(s: int, d1: int, d2: int, d3: int, u1: int, u2: int, u3: int, pw: int)
    requires
        d1 == s * s,
        d2 == 0,
        d3 == 0,
    ensures
        ((s * s) * u1 - (d1 * u1 + d2 * u2 + d3 * u3)) * pw == 0,
{
    assert(d1 * u1 == (s * s) * u1);
    assert(d2 * u2 == 0) by (nonlinear_arith)
        requires
            d2 == 0,
    ;
    assert(d3 * u3 == 0) by (nonlinear_arith)
        requires
            d3 == 0,
    ;
    assert((s * s) * u1 - (d1 * u1 + d2 * u2 + d3 * u3) == 0);
    assert(0 * pw == 0) by (nonlinear_arith);
}

/// One coordinate of the round trip "apply the inverse of `r`, then apply
/// `r`", as a pure expansion over the output row `g` and the other rows
/// `h` and `i`: everything regroups into dot products of the rows.
proof fn nl_right_inv_coord(
    g1: int,
    g2: int,
    g3: int,
    h1: int,
    h2: int,
    h3: int,
    i1: int,
    i2: int,
    i3: int,
    u1: int,
    u2: int,
    u3: int,
    s: int,
    px: int,
    py: int,
    pz: int,
    pw: int,
)
    ensures
        g1 * ((s * g1) * px + (s * h1) * py + (s * i1) * pz + (-(g1 * u1 + h1 * u2 + i1 * u3))
            * pw) + g2 * ((s * g2) * px + (s * h2) * py + (s * i2) * pz + (-(g2 * u1 + h2 * u2 + i2
            * u3)) * pw) + g3 * ((s * g3) * px + (s * h3) * py + (s * i3) * pz + (-(g3 * u1 + h3
            * u2 + i3 * u3)) * pw) + u1 * ((s * s) * pw) == (s * (g1 * g1 + g2 * g2 + g3 * g3))
            * px + (s * (g1 * h1 + g2 * h2 + g3 * h3)) * py + (s * (g1 * i1 + g2 * i2 + g3 * i3))
            * pz + ((s * s) * u1 - ((g1 * g1 + g2 * g2 + g3 * g3) * u1 + (g1 * h1 + g2 * h2 + g3
            * h3) * u2 + (g1 * i1 + g2 * i2 + g3 * i3) * u3)) * pw,
{
    lemma_distrib4(
        g1,
        (s * g1) * px,
        (s * h1) * py,
        (s * i1) * pz,
        (-(g1 * u1 + h1 * u2 + i1 * u3)) * pw,
    );
    lemma_assoc(g1, s * g1, px);
    lemma_assoc(s, g1, g1);
    lemma_assoc(s, g1 * g1, px);
    lemma_assoc(g1, s * h1, py);
    lemma_assoc(s, h1, g1);
    lemma_assoc(s, h1 * g1, py);
    lemma_assoc(g1, s * i1, pz);
    lemma_assoc(s, i1, g1);
    lemma_assoc(s, i1 * g1, pz);
    lemma_assoc(g1, -(g1 * u1 + h1 * u2 + i1 * u3), pw);
    lemma_neg_mul(g1 * u1 + h1 * u2 + i1 * u3, g1);
    lemma_distrib3(g1, g1 * u1, h1 * u2, i1 * u3);
    lemma_assoc(g1, g1, u1);
    lemma_assoc(g1, h1, u2);
    lemma_assoc(g1, i1, u3);
    lemma_neg_mul((g1 * g1) * u1 + (g1 * h1) * u2 + (g1 * i1) * u3, pw);
    lemma_distrib3(pw, (g1 * g1) * u1, (g1 * h1) * u2, (g1 * i1) * u3);
    lemma_distrib4(
        g2,
        (s * g2) * px,
        (s * h2) * py,
        (s * i2) * pz,
        (-(g2 * u1 + h2 * u2 + i2 * u3)) * pw,
    );
    lemma_assoc(g2, s * g2, px);
    lemma_assoc(s, g2, g2);
    lemma_assoc(s, g2 * g2, px);
    lemma_assoc(g2, s * h2, py);
    lemma_assoc(s, h2, g2);
    lemma_assoc(s, h2 * g2, py);
    lemma_assoc(g2, s * i2, pz);
    lemma_assoc(s, i2, g2);
    lemma_assoc(s, i2 * g2, pz);
    lemma_assoc(g2, -(g2 * u1 + h2 * u2 + i2 * u3), pw);
    lemma_neg_mul(g2 * u1 + h2 * u2 + i2 * u3, g2);
    lemma_distrib3(g2, g2 * u1, h2 * u2, i2 * u3);
    lemma_assoc(g2, g2, u1);
    lemma_assoc(g2, h2, u2);
    lemma_assoc(g2, i2, u3);
    lemma_neg_mul((g2 * g2) * u1 + (g2 * h2) * u2 + (g2 * i2) * u3, pw);
    lemma_distrib3(pw, (g2 * g2) * u1, (g2 * h2) * u2, (g2 * i2) * u3);
    lemma_distrib4(
        g3,
        (s * g3) * px,
        (s * h3) * py,
        (s * i3) * pz,
        (-(g3 * u1 + h3 * u2 + i3 * u3)) * pw,
    );
    lemma_assoc(g3, s * g3, px);
    lemma_assoc(s, g3, g3);
    lemma_assoc(s, g3 * g3, px);
    lemma_assoc(g3, s * h3, py);
    lemma_assoc(s, h3, g3);
    lemma_assoc(s, h3 * g3, py);
    lemma_assoc(g3, s * i3, pz);
    lemma_assoc(s, i3, g3);
    lemma_assoc(s, i3 * g3, pz);
    lemma_assoc(g3, -(g3 * u1 + h3 * u2 + i3 * u3), pw);
    lemma_neg_mul(g3 * u1 + h3 * u2 + i3 * u3, g3);
    lemma_distrib3(g3, g3 * u1, h3 * u2, i3 * u3);
    lemma_assoc(g3, g3, u1);
    lemma_assoc(g3, h3, u2);
    lemma_assoc(g3, i3, u3);
    lemma_neg_mul((g3 * g3) * u1 + (g3 * h3) * u2 + (g3 * i3) * u3, pw);
    lemma_distrib3(pw, (g3 * g3) * u1, (g3 * h3) * u2, (g3 * i3) * u3);
    lemma_assoc(u1, s * s, pw);
    lemma_assoc(s, g1 * g1 + g2 * g2 + g3 * g3, px);
    lemma_distrib3(px, g1 * g1, g2 * g2, g3 * g3);
    lemma_distrib3(s, (g1 * g1) * px, (g2 * g2) * px, (g3 * g3) * px);
    lemma_assoc(s, g1 * h1 + g2 * h2 + g3 * h3, py);
    lemma_distrib3(py, g1 * h1, g2 * h2, g3 * h3);
    lemma_distrib3(s, (g1 * h1) * py, (g2 * h2) * py, (g3 * h3) * py);
    lemma_assoc(s, g1 * i1 + g2 * i2 + g3 * i3, pz);
    lemma_distrib3(pz, g1 * i1, g2 * i2, g3 * i3);
    lemma_distrib3(s, (g1 * i1) * pz, (g2 * i2) * pz, (g3 * i3) * pz);
    lemma_sub_mul(
        (s * s) * u1,
        (g1 * g1 + g2 * g2 + g3 * g3) * u1 + (g1 * h1 + g2 * h2 + g3 * h3) * u2 + (g1 * i1 + g2
            * i2 + g3 * i3) * u3,
        pw,
    );
    lemma_distrib3(
        pw,
        (g1 * g1 + g2 * g2 + g3 * g3) * u1,
        (g1 * h1 + g2 * h2 + g3 * h3) * u2,
        (g1 * i1 + g2 * i2 + g3 * i3) * u3,
    );
    lemma_distrib3(u1, g1 * g1, g2 * g2, g3 * g3);
    lemma_distrib3(pw, (g1 * g1) * u1, (g2 * g2) * u1, (g3 * g3) * u1);
    lemma_distrib3(u2, g1 * h1, g2 * h2, g3 * h3);
    lemma_distrib3(pw, (g1 * h1) * u2, (g2 * h2) * u2, (g3 * h3) * u2);
    lemma_distrib3(u3, g1 * i1, g2 * i2, g3 * i3);
    lemma_distrib3(pw, (g1 * i1) * u3, (g2 * i2) * u3, (g3 * i3) * u3);
}

/// Applying the inverse of a rigid transform and then the transform itself
/// returns the test point, scaled by the cube of the transform's scale.
pub proof fn lemma_right_inverse_action(r: Rigid, p: Hom)
    requires
        rigid(r),
    ensures
        apply_hom(r, apply_hom(inverse_spec(r), p)) == hom_scale(r.s * (r.s * r.s), p),
{
    nl_right_inv_coord(
        r.m11, r.m12, r.m13, r.m21, r.m22, r.m23, r.m31, r.m32, r.m33,
        r.ux, r.uy, r.uz, r.s, p.x, p.y, p.z, p.w,
    );
    nl_right_inv_coord(
        r.m21, r.m22, r.m23, r.m11, r.m12, r.m13, r.m31, r.m32, r.m33,
        r.uy, r.ux, r.uz, r.s, p.y, p.x, p.z, p.w,
    );
    nl_right_inv_coord(
        r.m31, r.m32, r.m33, r.m11, r.m12, r.m13, r.m21, r.m22, r.m23,
        r.uz, r.ux, r.uy, r.s, p.z, p.x, p.y, p.w,
    );
    lemma_dot_subst(r.s, r.m11 * r.m11 + r.m12 * r.m12 + r.m13 * r.m13, r.s * r.s, p.x);
    lemma_dot_zero(r.s, r.m11 * r.m21 + r.m12 * r.m22 + r.m13 * r.m23, p.y);
    lemma_dot_zero(r.s, r.m11 * r.m31 + r.m12 * r.m32 + r.m13 * r.m33, p.z);
    lemma_uw_zero(
        r.s,
        r.m11 * r.m11 + r.m12 * r.m12 + r.m13 * r.m13,
        r.m11 * r.m21 + r.m12 * r.m22 + r.m13 * r.m23,
        r.m11 * r.m31 + r.m12 * r.m32 + r.m13 * r.m33,
        r.ux, r.uy, r.uz, p.w,
    );
    lemma_dot_subst(r.s, r.m21 * r.m21 + r.m22 * r.m22 + r.m23 * r.m23, r.s * r.s, p.y);
    lemma_dot_zero(r.s, r.m21 * r.m11 + r.m22 * r.m12 + r.m23 * r.m13, p.x);
    lemma_dot_zero(r.s, r.m21 * r.m31 + r.m22 * r.m32 + r.m23 * r.m33, p.z);
    lemma_uw_zero(
        r.s,
        r.m21 * r.m21 + r.m22 * r.m22 + r.m23 * r.m23,
        r.m21 * r.m11 + r.m22 * r.m12 + r.m23 * r.m13,
        r.m21 * r.m31 + r.m22 * r.m32 + r.m23 * r.m33,
        r.uy, r.ux, r.uz, p.w,
    );
    lemma_dot_subst(r.s, r.m31 * r.m31 + r.m32 * r.m32 + r.m33 * r.m33, r.s * r.s, p.z);
    lemma_dot_zero(r.s, r.m31 * r.m11 + r.m32 * r.m12 + r.m33 * r.m13, p.x);
    lemma_dot_zero(r.s, r.m31 * r.m21 + r.m32 * r.m22 + r.m33 * r.m23, p.y);
    lemma_uw_zero(
        r.s,
        r.m31 * r.m31 + r.m32 * r.m32 + r.m33 * r.m33,
        r.m31 * r.m11 + r.m32 * r.m12 + r.m33 * r.m13,
        r.m31 * r.m21 + r.m32 * r.m22 + r.m33 * r.m23,
        r.uz, r.ux, r.uy, p.w,
    );
    lemma_assoc(r.s, r.s * r.s, p.w);
    lemma_assoc(r.s, r.s, p.w);
    let z = apply_hom(inverse_spec(r), p);
    assert(apply_hom(r, z).x == (r.s * (r.s * r.s)) * p.x);
    assert(apply_hom(r, z).y == (r.s * (r.s * r.s)) * p.y);
    assert(apply_hom(r, z).z == (r.s * (r.s * r.s)) * p.z);
    assert(apply_hom(r, z).w == (r.s * (r.s * r.s)) * p.w);
}

/// A transform acts linearly on homogeneous points: scaling the point
/// scales its image.
pub proof fn lemma_apply_scale(r: Rigid, k: int, p: Hom)
    ensures
        apply_hom(r, hom_scale(k, p)) == hom_scale(k, apply_hom(r, p)),
{
    lemma_assoc(r.m11, k, p.x);
    lemma_assoc(k, r.m11, p.x);
    lemma_assoc(r.m12, k, p.y);
    lemma_assoc(k, r.m12, p.y);
    lemma_assoc(r.m13, k, p.z);
    lemma_assoc(k, r.m13, p.z);
    lemma_assoc(r.m21, k, p.x);
    lemma_assoc(k, r.m21, p.x);
    lemma_assoc(r.m22, k, p.y);
    lemma_assoc(k, r.m22, p.y);
    lemma_assoc(r.m23, k, p.z);
    lemma_assoc(k, r.m23, p.z);
    lemma_assoc(r.m31, k, p.x);
    lemma_assoc(k, r.m31, p.x);
    lemma_assoc(r.m32, k, p.y);
    lemma_assoc(k, r.m32, p.y);
    lemma_assoc(r.m33, k, p.z);
    lemma_assoc(k, r.m33, p.z);
    lemma_assoc(r.ux, k, p.w);
    lemma_assoc(k, r.ux, p.w);
    lemma_assoc(r.uy, k, p.w);
    lemma_assoc(k, r.uy, p.w);
    lemma_assoc(r.uz, k, p.w);
    lemma_assoc(k, r.uz, p.w);
    lemma_assoc(r.s, k, p.w);
    lemma_assoc(k, r.s, p.w);
    lemma_distrib4(k, r.m11 * p.x, r.m12 * p.y, r.m13 * p.z, r.ux * p.w);
    lemma_distrib4(k, r.m21 * p.x, r.m22 * p.y, r.m23 * p.z, r.uy * p.w);
    lemma_distrib4(k, r.m31 * p.x, r.m32 * p.y, r.m33 * p.z, r.uz * p.w);
}

/// Two homogeneous scalings collapse into one.
pub proof fn lemma_scale_scale(a: int, b: int, p: Hom)
    ensures
        hom_scale(a, hom_scale(b, p)) == hom_scale(a * b, p),
{
    lemma_assoc(a, b, p.x);
    lemma_assoc(a, b, p.y);
    lemma_assoc(a, b, p.z);
    lemma_assoc(a, b, p.w);
}

/// Composing the viewer pose with the inverse of the eye offset and then
/// inverting the whole result yields, on every test point, the transform
/// that direct matrix-algebra composition computes independently: the
/// offset applied after the inverse of the pose. Both sides are scaled by
/// the positive homogeneous weights of the transforms involved, so they
/// denote the same position.
pub proof fn lemma_inverse_matches_independent_chain(pose: Rigid, offset: Rigid, p: Hom)
    requires
        rigid(pose),
        rigid(offset),
    ensures
        ({
            let c = compose_spec(pose, inverse_spec(offset));
            hom_scale(
                (offset.s * (offset.s * offset.s)) * (pose.s * (pose.s * pose.s)),
                apply_hom(inverse_spec(c), p),
            ) == hom_scale(
                c.s * (c.s * c.s),
                apply_hom(offset, apply_hom(inverse_spec(pose), p)),
            )
        }),
{
    let ip = inverse_spec(pose);
    let io = inverse_spec(offset);
    let c = compose_spec(pose, io);
    let ko = offset.s * (offset.s * offset.s);
    let kp = pose.s * (pose.s * pose.s);
    let kc = c.s * (c.s * c.s);
    lemma_inverse_rigid(offset);
    lemma_inverse_rigid(pose);
    lemma_compose_rigid(pose, io);
    let w = apply_hom(ip, p);
    let y = apply_hom(offset, w);
    // The composite acts on `y` as its two factors act in sequence.
    lemma_compose_action(pose, io, y);
    // The inverted offset undoes the offset on `w`.
    lemma_left_inverse_action(offset, w);
    // Pull the resulting scale through the pose.
    lemma_apply_scale(pose, ko, w);
    // The pose undoes its own inverse on `p`.
    lemma_right_inverse_action(pose, p);
    lemma_scale_scale(ko, kp, p);
    assert(apply_hom(c, y) == hom_scale(ko * kp, p));
    // The inverted composite undoes the composite on `y`.
    lemma_left_inverse_action(c, y);
    // Pull the collected scale through the inverted composite.
    lemma_apply_scale(inverse_spec(c), ko * kp, p);
    assert(hom_scale(ko * kp, apply_hom(inverse_spec(c), p)) == hom_scale(kc, y));
}

} // verus!
