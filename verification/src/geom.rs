//! Exact integer collision predicates: axis-aligned boxes, orientation
//! tests, and the segment/triangle intersection test with its entry-time
//! key.
//!
//! A segment strictly crosses a triangle exactly when the segment's
//! endpoints lie on opposite sides of the triangle's plane and the segment
//! passes on a consistent side of each triangle edge; any such crossing lies
//! inside both bounding ranges, which the predicate states alongside the
//! orientation signs so that box pruning is sound.  Degenerate inputs
//! (coplanar segments, zero-area triangles) make an orientation vanish and
//! degrade to "no hit".

use vstd::prelude::*;

use crate::math::abs_i;
use crate::math::in_coord_range;
use crate::math::lemma_mul_bound;
use crate::math::spec_cross;
use crate::math::spec_dot;
use crate::math::spec_sub;
use crate::math::Vec3;
use crate::math::Vec3i;
use crate::math::COORD_MAX;
use crate::mesh::tri_in_range;
use crate::mesh::Tri3i;
use crate::mesh::Triangle;

verus! {

/// Denominator of the entry-time key: a key of `KEY_SCALE` is the far end
/// of the segment, a key of 0 its start.
pub const KEY_SCALE: i128 = 0x100_0000_0000;

/// Bound on an orientation determinant over in-range coordinates.
pub const ORIENT_MAX: i128 = 0x3_0000_0000_0000_0000;

/// Model of an axis-aligned box.
pub ghost struct Boxi {
    pub lo: Vec3i,
    pub hi: Vec3i,
}

/// An axis-aligned bounding box.
#[derive(Clone, Copy, PartialEq, Eq, Structural, Debug)]
pub struct Aabb {
    pub lo: Vec3,
    pub hi: Vec3,
}

impl View for Aabb {
    type V = Boxi;

    open spec fn view(&self) -> Boxi {
        Boxi { lo: self.lo@, hi: self.hi@ }
    }
}

pub open spec fn min2(a: int, b: int) -> int {
    if a <= b {
        a
    } else {
        b
    }
}

pub open spec fn max2(a: int, b: int) -> int {
    if a >= b {
        a
    } else {
        b
    }
}

pub open spec fn min3(a: int, b: int, c: int) -> int {
    min2(min2(a, b), c)
}

pub open spec fn max3(a: int, b: int, c: int) -> int {
    max2(max2(a, b), c)
}

/// The tight bounding box of a triangle.
pub open spec fn spec_tri_box(t: Tri3i) -> Boxi {
    Boxi {
        lo: Vec3i {
            x: min3(t.a.x, t.b.x, t.c.x),
            y: min3(t.a.y, t.b.y, t.c.y),
            z: min3(t.a.z, t.b.z, t.c.z),
        },
        hi: Vec3i {
            x: max3(t.a.x, t.b.x, t.c.x),
            y: max3(t.a.y, t.b.y, t.c.y),
            z: max3(t.a.z, t.b.z, t.c.z),
        },
    }
}

/// The tight bounding box of a segment.
pub open spec fn spec_seg_box(p: Vec3i, q: Vec3i) -> Boxi {
    Boxi {
        lo: Vec3i { x: min2(p.x, q.x), y: min2(p.y, q.y), z: min2(p.z, q.z) },
        hi: Vec3i { x: max2(p.x, q.x), y: max2(p.y, q.y), z: max2(p.z, q.z) },
    }
}

pub open spec fn boxes_overlap(a: Boxi, b: Boxi) -> bool {
    &&& a.lo.x <= b.hi.x && b.lo.x <= a.hi.x
    &&& a.lo.y <= b.hi.y && b.lo.y <= a.hi.y
    &&& a.lo.z <= b.hi.z && b.lo.z <= a.hi.z
}

pub open spec fn box_in_box(inner: Boxi, outer: Boxi) -> bool {
    &&& outer.lo.x <= inner.lo.x && inner.hi.x <= outer.hi.x
    &&& outer.lo.y <= inner.lo.y && inner.hi.y <= outer.hi.y
    &&& outer.lo.z <= inner.lo.z && inner.hi.z <= outer.hi.z
}

pub open spec fn box_union(a: Boxi, b: Boxi) -> Boxi {
    Boxi {
        lo: Vec3i {
            x: min2(a.lo.x, b.lo.x),
            y: min2(a.lo.y, b.lo.y),
            z: min2(a.lo.z, b.lo.z),
        },
        hi: Vec3i {
            x: max2(a.hi.x, b.hi.x),
            y: max2(a.hi.y, b.hi.y),
            z: max2(a.hi.z, b.hi.z),
        },
    }
}

pub open spec fn box_in_range(b: Boxi) -> bool {
    in_coord_range(b.lo) && in_coord_range(b.hi)
}

/// A box is proper: each low bound at most the high bound.
pub open spec fn box_wf(b: Boxi) -> bool {
    b.lo.x <= b.hi.x && b.lo.y <= b.hi.y && b.lo.z <= b.hi.z
}

/// If a box meets the inner of two nested boxes it meets the outer one.
pub proof fn lemma_overlap_mono(a: Boxi, inner: Boxi, outer: Boxi)
    requires
        boxes_overlap(a, inner),
        box_in_box(inner, outer),
    ensures
        boxes_overlap(a, outer),
{
}

/// Signed orientation: six times the volume of the tetrahedron `a b c d`.
pub open spec fn orient(a: Vec3i, b: Vec3i, c: Vec3i, d: Vec3i) -> int {
    spec_dot(spec_cross(spec_sub(b, a), spec_sub(c, a)), spec_sub(d, a))
}

/// The segment from `p` to `q` strictly crosses triangle `t`.
pub open spec fn seg_tri_hit(p: Vec3i, q: Vec3i, t: Tri3i) -> bool {
    let d1 = orient(t.a, t.b, t.c, p);
    let d2 = orient(t.a, t.b, t.c, q);
    let s1 = orient(p, q, t.a, t.b);
    let s2 = orient(p, q, t.b, t.c);
    let s3 = orient(p, q, t.c, t.a);
    &&& ((d1 > 0 && d2 < 0) || (d1 < 0 && d2 > 0))
    &&& ((s1 >= 0 && s2 >= 0 && s3 >= 0) || (s1 <= 0 && s2 <= 0 && s3 <= 0))
    &&& boxes_overlap(spec_seg_box(p, q), spec_tri_box(t))
}

/// Entry time of the crossing as a fraction of the segment, quantized to
/// `1 / KEY_SCALE`: the plane distances of the two endpoints divide the
/// segment at `|d1| / (|d1| + |d2|)`.
pub open spec fn hit_key(p: Vec3i, q: Vec3i, t: Tri3i) -> int {
    let d1 = orient(t.a, t.b, t.c, p);
    let d2 = orient(t.a, t.b, t.c, q);
    (abs_i(d1) * KEY_SCALE) / (abs_i(d1) + abs_i(d2))
}

/// Bounding box of a triangle.
pub fn tri_box(t: &Triangle) -> (r: Aabb)
    ensures
        r@ == spec_tri_box(t@),
{
    Aabb {
        lo: Vec3 {
            x: min2_e(min2_e(t.a.x, t.b.x), t.c.x),
            y: min2_e(min2_e(t.a.y, t.b.y), t.c.y),
            z: min2_e(min2_e(t.a.z, t.b.z), t.c.z),
        },
        hi: Vec3 {
            x: max2_e(max2_e(t.a.x, t.b.x), t.c.x),
            y: max2_e(max2_e(t.a.y, t.b.y), t.c.y),
            z: max2_e(max2_e(t.a.z, t.b.z), t.c.z),
        },
    }
}

/// Bounding box of a segment.
pub fn seg_box(p: &Vec3, q: &Vec3) -> (r: Aabb)
    ensures
        r@ == spec_seg_box(p@, q@),
{
    Aabb {
        lo: Vec3 { x: min2_e(p.x, q.x), y: min2_e(p.y, q.y), z: min2_e(p.z, q.z) },
        hi: Vec3 { x: max2_e(p.x, q.x), y: max2_e(p.y, q.y), z: max2_e(p.z, q.z) },
    }
}

fn min2_e(a: i64, b: i64) -> (r: i64)
    ensures
        r == min2(a as int, b as int),
{
    if a <= b {
        a
    } else {
        b
    }
}

fn max2_e(a: i64, b: i64) -> (r: i64)
    ensures
        r == max2(a as int, b as int),
{
    if a >= b {
        a
    } else {
        b
    }
}

/// Whether two boxes overlap.
pub fn boxes_overlap_e(a: &Aabb, b: &Aabb) -> (r: bool)
    ensures
        r == boxes_overlap(a@, b@),
{
    a.lo.x <= b.hi.x && b.lo.x <= a.hi.x && a.lo.y <= b.hi.y && b.lo.y <= a.hi.y && a.lo.z
        <= b.hi.z && b.lo.z <= a.hi.z
}

/// Union of two boxes.
pub fn box_union_e(a: &Aabb, b: &Aabb) -> (r: Aabb)
    ensures
        r@ == box_union(a@, b@),
{
    Aabb {
        lo: Vec3 {
            x: min2_e(a.lo.x, b.lo.x),
            y: min2_e(a.lo.y, b.lo.y),
            z: min2_e(a.lo.z, b.lo.z),
        },
        hi: Vec3 {
            x: max2_e(a.hi.x, b.hi.x),
            y: max2_e(a.hi.y, b.hi.y),
            z: max2_e(a.hi.z, b.hi.z),
        },
    }
}

/// The orientation determinant, evaluated exactly.
pub fn orient_e(a: &Vec3, b: &Vec3, c: &Vec3, d: &Vec3) -> (r: i128)
    requires
        in_coord_range(a@),
        in_coord_range(b@),
        in_coord_range(c@),
        in_coord_range(d@),
    ensures
        r == orient(a@, b@, c@, d@),
        -ORIENT_MAX <= r <= ORIENT_MAX,
{
    let ux: i128 = (b.x - a.x) as i128;
    let uy: i128 = (b.y - a.y) as i128;
    let uz: i128 = (b.z - a.z) as i128;
    let vx: i128 = (c.x - a.x) as i128;
    let vy: i128 = (c.y - a.y) as i128;
    let vz: i128 = (c.z - a.z) as i128;
    let wx: i128 = (d.x - a.x) as i128;
    let wy: i128 = (d.y - a.y) as i128;
    let wz: i128 = (d.z - a.z) as i128;
    proof {
        lemma_mul_bound(uy as int, vz as int, 0x20_0000, 0x20_0000);
        lemma_mul_bound(uz as int, vy as int, 0x20_0000, 0x20_0000);
        lemma_mul_bound(uz as int, vx as int, 0x20_0000, 0x20_0000);
        lemma_mul_bound(ux as int, vz as int, 0x20_0000, 0x20_0000);
        lemma_mul_bound(ux as int, vy as int, 0x20_0000, 0x20_0000);
        lemma_mul_bound(uy as int, vx as int, 0x20_0000, 0x20_0000);
    }
    let cx: i128 = uy * vz - uz * vy;
    let cy: i128 = uz * vx - ux * vz;
    let cz: i128 = ux * vy - uy * vx;
    proof {
        lemma_mul_bound(cx as int, wx as int, 0x800_0000_0000, 0x20_0000);
        lemma_mul_bound(cy as int, wy as int, 0x800_0000_0000, 0x20_0000);
        lemma_mul_bound(cz as int, wz as int, 0x800_0000_0000, 0x20_0000);
    }
    cx * wx + cy * wy + cz * wz
}

/// Exact segment/triangle crossing test; on a hit it returns the quantized
/// entry-time key.
pub fn seg_tri_test(p: &Vec3, q: &Vec3, t: &Triangle) -> (h: Option<i128>)
    requires
        in_coord_range(p@),
        in_coord_range(q@),
        tri_in_range(t@),
    ensures
        match h {
            Some(key) => seg_tri_hit(p@, q@, t@) && key == hit_key(p@, q@, t@) && 0 <= key
                <= KEY_SCALE,
            None => !seg_tri_hit(p@, q@, t@),
        },
{
    let d1 = orient_e(&t.a, &t.b, &t.c, p);
    let d2 = orient_e(&t.a, &t.b, &t.c, q);
    if !((d1 > 0 && d2 < 0) || (d1 < 0 && d2 > 0)) {
        return None;
    }
    let s1 = orient_e(p, q, &t.a, &t.b);
    let s2 = orient_e(p, q, &t.b, &t.c);
    let s3 = orient_e(p, q, &t.c, &t.a);
    if !((s1 >= 0 && s2 >= 0 && s3 >= 0) || (s1 <= 0 && s2 <= 0 && s3 <= 0)) {
        return None;
    }
    let sb = seg_box(p, q);
    let tb = tri_box(t);
    if !boxes_overlap_e(&sb, &tb) {
        return None;
    }
    let tn: i128 = if d1 >= 0 {
        d1
    } else {
        -d1
    };
    let dn: i128 = if d2 >= 0 {
        d2
    } else {
        -d2
    };
    let td: i128 = tn + dn;
    proof {
        lemma_mul_bound(tn as int, KEY_SCALE as int, ORIENT_MAX as int, KEY_SCALE as int);
    }
    let key: i128 = (tn * KEY_SCALE) / td;
    proof {
        lemma_key_in_range(tn as int, td as int);
    }
    Some(key)
}

proof fn lemma_key_in_range(tn: int, td: int)
    requires
        0 < tn <= td,
    ensures
        0 <= (tn * KEY_SCALE) / td <= KEY_SCALE,
{
    lemma_mul_bound(tn, KEY_SCALE as int, td, KEY_SCALE as int);
    assert(tn * KEY_SCALE <= td * KEY_SCALE) by (nonlinear_arith)
        requires
            0 < tn <= td,
    ;
    assert(0 <= tn * KEY_SCALE) by (nonlinear_arith)
        requires
            0 < tn,
    ;
    vstd::arithmetic::div_mod::lemma_div_is_ordered(tn * KEY_SCALE, td * KEY_SCALE, td);
    vstd::arithmetic::div_mod::lemma_div_multiples_vanish(KEY_SCALE as int, td);
    vstd::arithmetic::div_mod::lemma_div_pos_is_pos(tn * KEY_SCALE, td);
}

/// The point at fraction `key / KEY_SCALE` along the segment from `p` to
/// `q`, componentwise, rounding toward `p`.
pub open spec fn spec_point_on(p: Vec3i, q: Vec3i, key: int) -> Vec3i {
    Vec3i {
        x: p.x + crate::math::div_tz((q.x - p.x) * key, KEY_SCALE as int),
        y: p.y + crate::math::div_tz((q.y - p.y) * key, KEY_SCALE as int),
        z: p.z + crate::math::div_tz((q.z - p.z) * key, KEY_SCALE as int),
    }
}

proof fn lemma_offset_bound(d: int, key: int)
    requires
        0 <= key <= KEY_SCALE as int,
    ensures
        d >= 0 ==> 0 <= crate::math::div_tz(d * key, KEY_SCALE as int) <= d,
        d < 0 ==> d <= crate::math::div_tz(d * key, KEY_SCALE as int) <= 0,
{
    let k = KEY_SCALE as int;
    if d >= 0 {
        assert(0 <= d * key <= d * k) by (nonlinear_arith)
            requires
                0 <= key <= k,
                d >= 0,
        ;
        vstd::arithmetic::div_mod::lemma_div_is_ordered(d * key, d * k, k);
        vstd::arithmetic::div_mod::lemma_div_multiples_vanish(d, k);
        vstd::arithmetic::div_mod::lemma_div_pos_is_pos(d * key, k);
    } else {
        assert(0 <= (-d) * key <= (-d) * k) by (nonlinear_arith)
            requires
                0 <= key <= k,
                d < 0,
        ;
        assert(-(d * key) == (-d) * key) by (nonlinear_arith);
        vstd::arithmetic::div_mod::lemma_div_is_ordered((-d) * key, (-d) * k, k);
        vstd::arithmetic::div_mod::lemma_div_multiples_vanish(-d, k);
        vstd::arithmetic::div_mod::lemma_div_pos_is_pos((-d) * key, k);
    }
}

/// Evaluate `spec_point_on`; the result stays within the segment's bounds.
pub fn point_on_segment(p: &Vec3, q: &Vec3, key: i128) -> (r: Vec3)
    requires
        in_coord_range(p@),
        in_coord_range(q@),
        0 <= key <= KEY_SCALE,
    ensures
        r@ == spec_point_on(p@, q@, key as int),
        in_coord_range(r@),
{
    proof {
        lemma_mul_bound((q@.x - p@.x) as int, key as int, 0x20_0000, KEY_SCALE as int);
        lemma_mul_bound((q@.y - p@.y) as int, key as int, 0x20_0000, KEY_SCALE as int);
        lemma_mul_bound((q@.z - p@.z) as int, key as int, 0x20_0000, KEY_SCALE as int);
        lemma_offset_bound(q@.x - p@.x, key as int);
        lemma_offset_bound(q@.y - p@.y, key as int);
        lemma_offset_bound(q@.z - p@.z, key as int);
    }
    let dx: i128 = (q.x - p.x) as i128;
    let dy: i128 = (q.y - p.y) as i128;
    let dz: i128 = (q.z - p.z) as i128;
    let ox: i128 = (dx * key) / KEY_SCALE;
    let oy: i128 = (dy * key) / KEY_SCALE;
    let oz: i128 = (dz * key) / KEY_SCALE;
    Vec3 { x: p.x + (ox as i64), y: p.y + (oy as i64), z: p.z + (oz as i64) }
}

/// Per-axis distance from a coordinate to an interval.
pub open spec fn axis_gap(lo: int, hi: int, c: int) -> int {
    if c < lo {
        lo - c
    } else if c > hi {
        c - hi
    } else {
        0
    }
}

/// Squared distance from a point to a box.
pub open spec fn box_dist2(b: Boxi, c: Vec3i) -> int {
    let gx = axis_gap(b.lo.x, b.hi.x, c.x);
    let gy = axis_gap(b.lo.y, b.hi.y, c.y);
    let gz = axis_gap(b.lo.z, b.hi.z, c.z);
    gx * gx + gy * gy + gz * gz
}

/// Squared distance from a point to a box, evaluated exactly.
pub fn box_dist2_e(b: &Aabb, c: &Vec3) -> (r: i64)
    requires
        box_in_range(b@),
        in_coord_range(c@),
    ensures
        r == box_dist2(b@, c@),
        r >= 0,
{
    let gx = axis_gap_e(b.lo.x, b.hi.x, c.x);
    let gy = axis_gap_e(b.lo.y, b.hi.y, c.y);
    let gz = axis_gap_e(b.lo.z, b.hi.z, c.z);
    proof {
        lemma_mul_bound(gx as int, gx as int, 0x20_0000, 0x20_0000);
        lemma_mul_bound(gy as int, gy as int, 0x20_0000, 0x20_0000);
        lemma_mul_bound(gz as int, gz as int, 0x20_0000, 0x20_0000);
        lemma_sq_nonneg(gx as int);
        lemma_sq_nonneg(gy as int);
        lemma_sq_nonneg(gz as int);
    }
    gx * gx + gy * gy + gz * gz
}

fn axis_gap_e(lo: i64, hi: i64, c: i64) -> (r: i64)
    requires
        -COORD_MAX <= lo <= COORD_MAX,
        -COORD_MAX <= hi <= COORD_MAX,
        -COORD_MAX <= c <= COORD_MAX,
    ensures
        r == axis_gap(lo as int, hi as int, c as int),
        0 <= r <= 2 * COORD_MAX,
{
    if c < lo {
        lo - c
    } else if c > hi {
        c - hi
    } else {
        0
    }
}

pub proof fn lemma_sq_nonneg(a: int)
    by (nonlinear_arith)
    ensures
        a * a >= 0,
{
}

proof fn lemma_sq_mono(a: int, b: int)
    by (nonlinear_arith)
    requires
        0 <= a <= b,
    ensures
        a * a <= b * b,
{
}

/// A point is never farther from an enclosing box than from a box inside it.
pub proof fn lemma_box_dist2_mono(inner: Boxi, outer: Boxi, c: Vec3i)
    requires
        box_wf(inner),
        box_in_box(inner, outer),
    ensures
        box_dist2(outer, c) <= box_dist2(inner, c),
{
    let gox = axis_gap(outer.lo.x, outer.hi.x, c.x);
    let gix = axis_gap(inner.lo.x, inner.hi.x, c.x);
    let goy = axis_gap(outer.lo.y, outer.hi.y, c.y);
    let giy = axis_gap(inner.lo.y, inner.hi.y, c.y);
    let goz = axis_gap(outer.lo.z, outer.hi.z, c.z);
    let giz = axis_gap(inner.lo.z, inner.hi.z, c.z);
    assert(0 <= gox <= gix);
    assert(0 <= goy <= giy);
    assert(0 <= goz <= giz);
    lemma_sq_mono(gox, gix);
    lemma_sq_mono(goy, giy);
    lemma_sq_mono(goz, giz);
}

} // verus!
