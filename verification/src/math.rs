//! Fixed-point vectors and 3x3 linear transforms.
//!
//! Coordinates are stored as `i64` in hundredths of a game unit and are kept
//! within `COORD_MAX`, which leaves enough headroom for the exact integer
//! intersection predicates used by the collision queries.

use vstd::prelude::*;

verus! {

/// Largest coordinate magnitude the geometry pipeline accepts.
pub const COORD_MAX: i64 = 0x10_0000;

/// Bound on the magnitudes fed to `dot` and `cross` so the products fit `i64`.
pub const OP_MAX: i64 = 0x2000_0000;

/// Mathematical model of a vector: unbounded integer components.
pub ghost struct Vec3i {
    pub x: int,
    pub y: int,
    pub z: int,
}

/// Mathematical model of a matrix: three unbounded integer rows.
pub ghost struct Mat3i {
    pub x: Vec3i,
    pub y: Vec3i,
    pub z: Vec3i,
}

pub open spec fn spec_dot(a: Vec3i, b: Vec3i) -> int {
    a.x * b.x + a.y * b.y + a.z * b.z
}

pub open spec fn spec_cross(a: Vec3i, b: Vec3i) -> Vec3i {
    Vec3i {
        x: a.y * b.z - a.z * b.y,
        y: a.z * b.x - a.x * b.z,
        z: a.x * b.y - a.y * b.x,
    }
}

pub open spec fn spec_add(a: Vec3i, b: Vec3i) -> Vec3i {
    Vec3i { x: a.x + b.x, y: a.y + b.y, z: a.z + b.z }
}

pub open spec fn spec_sub(a: Vec3i, b: Vec3i) -> Vec3i {
    Vec3i { x: a.x - b.x, y: a.y - b.y, z: a.z - b.z }
}

/// Row `x` of the matrix times the column vector, and so on: `apply` treats
/// the rows as the rows of a conventional matrix acting on a column vector.
pub open spec fn spec_apply(m: Mat3i, v: Vec3i) -> Vec3i {
    Vec3i { x: spec_dot(m.x, v), y: spec_dot(m.y, v), z: spec_dot(m.z, v) }
}

pub open spec fn spec_col(m: Mat3i, j: int) -> Vec3i {
    if j == 0 {
        Vec3i { x: m.x.x, y: m.y.x, z: m.z.x }
    } else if j == 1 {
        Vec3i { x: m.x.y, y: m.y.y, z: m.z.y }
    } else {
        Vec3i { x: m.x.z, y: m.y.z, z: m.z.z }
    }
}

/// Conventional matrix product: entry (i, j) is row i of `a` dot column j of `b`.
pub open spec fn spec_combine(a: Mat3i, b: Mat3i) -> Mat3i {
    Mat3i {
        x: Vec3i {
            x: spec_dot(a.x, spec_col(b, 0)),
            y: spec_dot(a.x, spec_col(b, 1)),
            z: spec_dot(a.x, spec_col(b, 2)),
        },
        y: Vec3i {
            x: spec_dot(a.y, spec_col(b, 0)),
            y: spec_dot(a.y, spec_col(b, 1)),
            z: spec_dot(a.y, spec_col(b, 2)),
        },
        z: Vec3i {
            x: spec_dot(a.z, spec_col(b, 0)),
            y: spec_dot(a.z, spec_col(b, 1)),
            z: spec_dot(a.z, spec_col(b, 2)),
        },
    }
}

proof fn lemma_dist3_right(p: int, q: int, s: int, v: int)
    by (nonlinear_arith)
    ensures
        (p + q + s) * v == p * v + q * v + s * v,
{
}

proof fn lemma_dist3_left(v: int, p: int, q: int, s: int)
    by (nonlinear_arith)
    ensures
        v * (p + q + s) == v * p + v * q + v * s,
{
}

proof fn lemma_mul_assoc(a: int, b: int, c: int)
    by (nonlinear_arith)
    ensures
        (a * b) * c == a * (b * c),
{
}

proof fn lemma_row_compose(
    r0: int, r1: int, r2: int,
    b00: int, b01: int, b02: int,
    b10: int, b11: int, b12: int,
    b20: int, b21: int, b22: int,
    v0: int, v1: int, v2: int,
)
    ensures
        (r0 * b00 + r1 * b10 + r2 * b20) * v0
            + (r0 * b01 + r1 * b11 + r2 * b21) * v1
            + (r0 * b02 + r1 * b12 + r2 * b22) * v2
        == r0 * (b00 * v0 + b01 * v1 + b02 * v2)
            + r1 * (b10 * v0 + b11 * v1 + b12 * v2)
            + r2 * (b20 * v0 + b21 * v1 + b22 * v2),
{
    lemma_dist3_right(r0 * b00, r1 * b10, r2 * b20, v0);
    lemma_dist3_right(r0 * b01, r1 * b11, r2 * b21, v1);
    lemma_dist3_right(r0 * b02, r1 * b12, r2 * b22, v2);
    lemma_mul_assoc(r0, b00, v0);
    lemma_mul_assoc(r0, b01, v1);
    lemma_mul_assoc(r0, b02, v2);
    lemma_mul_assoc(r1, b10, v0);
    lemma_mul_assoc(r1, b11, v1);
    lemma_mul_assoc(r1, b12, v2);
    lemma_mul_assoc(r2, b20, v0);
    lemma_mul_assoc(r2, b21, v1);
    lemma_mul_assoc(r2, b22, v2);
    lemma_dist3_left(r0, b00 * v0, b01 * v1, b02 * v2);
    lemma_dist3_left(r1, b10 * v0, b11 * v1, b12 * v2);
    lemma_dist3_left(r2, b20 * v0, b21 * v1, b22 * v2);
}

/// Composition law: applying a combined transform equals applying the right
/// factor first and the left factor second.
pub proof fn lemma_apply_combine(a: Mat3i, b: Mat3i, v: Vec3i)
    ensures
        spec_apply(spec_combine(a, b), v) == spec_apply(a, spec_apply(b, v)),
{
    lemma_row_compose(
        a.x.x, a.x.y, a.x.z,
        b.x.x, b.x.y, b.x.z,
        b.y.x, b.y.y, b.y.z,
        b.z.x, b.z.y, b.z.z,
        v.x, v.y, v.z,
    );
    lemma_row_compose(
        a.y.x, a.y.y, a.y.z,
        b.x.x, b.x.y, b.x.z,
        b.y.x, b.y.y, b.y.z,
        b.z.x, b.z.y, b.z.z,
        v.x, v.y, v.z,
    );
    lemma_row_compose(
        a.z.x, a.z.y, a.z.z,
        b.x.x, b.x.y, b.x.z,
        b.y.x, b.y.y, b.y.z,
        b.z.x, b.z.y, b.z.z,
        v.x, v.y, v.z,
    );
}

/// Absolute value.
pub open spec fn abs_i(a: int) -> int {
    if a >= 0 {
        a
    } else {
        -a
    }
}

/// Per axis, the three magnitudes together stay within the coordinate
/// range, so the corners of a panel built from them are in range.
pub open spec fn abs3_fits(p: Vec3i, e1: Vec3i, e2: Vec3i) -> bool {
    &&& abs_i(p.x) + abs_i(e1.x) + abs_i(e2.x) <= COORD_MAX as int
    &&& abs_i(p.y) + abs_i(e1.y) + abs_i(e2.y) <= COORD_MAX as int
    &&& abs_i(p.z) + abs_i(e1.z) + abs_i(e2.z) <= COORD_MAX as int
}

/// Division that rounds toward zero, matching the executable `/` on `i64`.
pub open spec fn div_tz(a: int, d: int) -> int {
    if a >= 0 {
        a / d
    } else {
        -((-a) / d)
    }
}

/// Clamp into `[-m, m]`.
pub open spec fn clamp_i(a: int, m: int) -> int {
    if a < -m {
        -m
    } else if a > m {
        m
    } else {
        a
    }
}

/// Clamp a computed coordinate into the supported range.
pub fn clamp_coord(a: i64) -> (r: i64)
    ensures
        r == clamp_i(a as int, COORD_MAX as int),
{
    if a < -COORD_MAX {
        -COORD_MAX
    } else if a > COORD_MAX {
        COORD_MAX
    } else {
        a
    }
}

/// A fixed-point vector; one stored unit is one hundredth of a game unit.
#[derive(Clone, Copy, PartialEq, Eq, Structural, Debug)]
pub struct Vec3 {
    pub x: i64,
    pub y: i64,
    pub z: i64,
}

impl View for Vec3 {
    type V = Vec3i;

    open spec fn view(&self) -> Vec3i {
        Vec3i { x: self.x as int, y: self.y as int, z: self.z as int }
    }
}

pub open spec fn vec_bounded(v: Vec3i, m: int) -> bool {
    -m <= v.x <= m && -m <= v.y <= m && -m <= v.z <= m
}

pub open spec fn in_coord_range(v: Vec3i) -> bool {
    vec_bounded(v, COORD_MAX as int)
}

pub proof fn lemma_mul_bound(a: int, b: int, m: int, n: int)
    by (nonlinear_arith)
    requires
        -m <= a <= m,
        -n <= b <= n,
        0 <= m,
        0 <= n,
    ensures
        -(m * n) <= a * b <= m * n,
{
}

impl Vec3 {
    pub fn new(x: i64, y: i64, z: i64) -> (r: Vec3)
        ensures
            r@ == (Vec3i { x: x as int, y: y as int, z: z as int }),
    {
        Vec3 { x, y, z }
    }

    pub fn zero() -> (r: Vec3)
        ensures
            r@ == (Vec3i { x: 0, y: 0, z: 0 }),
    {
        Vec3 { x: 0, y: 0, z: 0 }
    }

    pub fn add(&self, o: &Vec3) -> (r: Vec3)
        requires
            i64::MIN <= self@.x + o@.x <= i64::MAX,
            i64::MIN <= self@.y + o@.y <= i64::MAX,
            i64::MIN <= self@.z + o@.z <= i64::MAX,
        ensures
            r@ == spec_add(self@, o@),
    {
        Vec3 { x: self.x + o.x, y: self.y + o.y, z: self.z + o.z }
    }

    pub fn sub(&self, o: &Vec3) -> (r: Vec3)
        requires
            i64::MIN <= self@.x - o@.x <= i64::MAX,
            i64::MIN <= self@.y - o@.y <= i64::MAX,
            i64::MIN <= self@.z - o@.z <= i64::MAX,
        ensures
            r@ == spec_sub(self@, o@),
    {
        Vec3 { x: self.x - o.x, y: self.y - o.y, z: self.z - o.z }
    }

    pub fn dot(&self, o: &Vec3) -> (r: i64)
        requires
            vec_bounded(self@, OP_MAX as int),
            vec_bounded(o@, OP_MAX as int),
        ensures
            r == spec_dot(self@, o@),
    {
        proof {
            lemma_mul_bound(self@.x, o@.x, OP_MAX as int, OP_MAX as int);
            lemma_mul_bound(self@.y, o@.y, OP_MAX as int, OP_MAX as int);
            lemma_mul_bound(self@.z, o@.z, OP_MAX as int, OP_MAX as int);
        }
        self.x * o.x + self.y * o.y + self.z * o.z
    }

    pub fn cross(&self, o: &Vec3) -> (r: Vec3)
        requires
            vec_bounded(self@, OP_MAX as int),
            vec_bounded(o@, OP_MAX as int),
        ensures
            r@ == spec_cross(self@, o@),
    {
        proof {
            lemma_mul_bound(self@.x, o@.x, OP_MAX as int, OP_MAX as int);
            lemma_mul_bound(self@.x, o@.y, OP_MAX as int, OP_MAX as int);
            lemma_mul_bound(self@.x, o@.z, OP_MAX as int, OP_MAX as int);
            lemma_mul_bound(self@.y, o@.x, OP_MAX as int, OP_MAX as int);
            lemma_mul_bound(self@.y, o@.y, OP_MAX as int, OP_MAX as int);
            lemma_mul_bound(self@.y, o@.z, OP_MAX as int, OP_MAX as int);
            lemma_mul_bound(self@.z, o@.x, OP_MAX as int, OP_MAX as int);
            lemma_mul_bound(self@.z, o@.y, OP_MAX as int, OP_MAX as int);
            lemma_mul_bound(self@.z, o@.z, OP_MAX as int, OP_MAX as int);
        }
        Vec3 {
            x: self.y * o.z - self.z * o.y,
            y: self.z * o.x - self.x * o.z,
            z: self.x * o.y - self.y * o.x,
        }
    }
}

/// A 3x3 linear transform stored as three rows.
#[derive(Clone, Copy, PartialEq, Eq, Structural, Debug)]
pub struct Mat3 {
    pub x: Vec3,
    pub y: Vec3,
    pub z: Vec3,
}

impl View for Mat3 {
    type V = Mat3i;

    open spec fn view(&self) -> Mat3i {
        Mat3i { x: self.x@, y: self.y@, z: self.z@ }
    }
}

pub open spec fn mat_bounded(m: Mat3i, b: int) -> bool {
    vec_bounded(m.x, b) && vec_bounded(m.y, b) && vec_bounded(m.z, b)
}

impl Mat3 {
    pub fn rows(x: Vec3, y: Vec3, z: Vec3) -> (r: Mat3)
        ensures
            r@ == (Mat3i { x: x@, y: y@, z: z@ }),
    {
        Mat3 { x, y, z }
    }

    /// Diagonal (axis-aligned scaling) matrix.
    pub fn diagonal(d: i64) -> (r: Mat3)
        ensures
            r@ == (Mat3i {
                x: Vec3i { x: d as int, y: 0, z: 0 },
                y: Vec3i { x: 0, y: d as int, z: 0 },
                z: Vec3i { x: 0, y: 0, z: d as int },
            }),
    {
        Mat3 {
            x: Vec3 { x: d, y: 0, z: 0 },
            y: Vec3 { x: 0, y: d, z: 0 },
            z: Vec3 { x: 0, y: 0, z: d },
        }
    }

    /// Apply the transform to a column vector.
    pub fn apply(&self, v: &Vec3) -> (r: Vec3)
        requires
            mat_bounded(self@, OP_MAX as int),
            vec_bounded(v@, OP_MAX as int),
        ensures
            r@ == spec_apply(self@, v@),
    {
        Vec3 { x: self.x.dot(v), y: self.y.dot(v), z: self.z.dot(v) }
    }

    /// Conventional matrix product: the combined transform applies `o` first
    /// and `self` second (see `lemma_apply_combine`).
    pub fn dot(&self, o: &Mat3) -> (r: Mat3)
        requires
            mat_bounded(self@, OP_MAX as int),
            mat_bounded(o@, OP_MAX as int),
        ensures
            r@ == spec_combine(self@, o@),
    {
        let c0 = Vec3 { x: o.x.x, y: o.y.x, z: o.z.x };
        let c1 = Vec3 { x: o.x.y, y: o.y.y, z: o.z.y };
        let c2 = Vec3 { x: o.x.z, y: o.y.z, z: o.z.z };
        Mat3 {
            x: Vec3 { x: self.x.dot(&c0), y: self.x.dot(&c1), z: self.x.dot(&c2) },
            y: Vec3 { x: self.y.dot(&c0), y: self.y.dot(&c1), z: self.y.dot(&c2) },
            z: Vec3 { x: self.z.dot(&c0), y: self.z.dot(&c1), z: self.z.dot(&c2) },
        }
    }
}

/// Integer square root: the unique `r` with `r * r <= x < (r + 1) * (r + 1)`.
pub fn isqrt_u128(x: u128) -> (r: u128)
    ensures
        r * r <= x,
        x < (r + 1) * (r + 1),
{
    let mut lo: u128 = 0;
    let mut hi: u128 = 0x1_0000_0000_0000_0000;
    // Invariant: lo * lo <= x < hi * hi, answer in [lo, hi).
    while lo + 1 < hi
        invariant
            lo < hi,
            hi <= 0x1_0000_0000_0000_0000,
            lo * lo <= x,
            x < hi * hi,
        decreases hi - lo,
    {
        let mid: u128 = lo + (hi - lo) / 2;
        proof {
            lemma_mul_bound(mid as int, mid as int, 0x1_0000_0000_0000_0000, 0x1_0000_0000_0000_0000);
            assert(mid * mid < 0x1_0000_0000_0000_0000 * 0x1_0000_0000_0000_0000)
                by (nonlinear_arith)
                requires 0 <= mid < 0x1_0000_0000_0000_0000;
        }
        if mid * mid <= x {
            lo = mid;
        } else {
            hi = mid;
        }
    }
    lo
}

} // verus!
