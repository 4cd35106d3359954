//! Ball trajectory simulation: a fixed-step integrator over an arena's
//! bounding-volume hierarchy.
//!
//! Each tick is 1/120 s.  A step applies gravity and drag to the velocity,
//! advances the position, then resolves at most one contact: the swept
//! collision along the segment from the old to the new center, else the
//! resting contact with the nearest triangle whose bounds are within the
//! ball radius.  Further same-tick contacts are not re-tested; a small
//! remaining penetration is carried into the next tick and resolved there.
//! Every step is a pure function of the previous state and the arena, which
//! `spec_step` states exactly; predictions are therefore reproducible.

use vstd::prelude::*;

use crate::bvh::lemma_nearest_pins;
use crate::bvh::lemma_prox_pins;
use crate::bvh::spec_nearest;
use crate::bvh::spec_prox;
use crate::bvh::Bvh;
use crate::geom::spec_point_on;
use crate::geom::point_on_segment;
use crate::math::clamp_i;
use crate::math::div_tz;
use crate::math::in_coord_range;
use crate::math::isqrt_u128;
use crate::math::lemma_mul_bound;
use crate::math::spec_cross;
use crate::math::spec_dot;
use crate::math::spec_sub;
use crate::math::vec_bounded;
use crate::math::Vec3;
use crate::math::Vec3i;
use crate::math::COORD_MAX;
use crate::mesh::tri_in_range;
use crate::mesh::Tri3i;
use crate::mesh::Triangle;

verus! {

/// Ticks per second of simulated time.
pub const TICK_RATE: i64 = 120;

/// Velocity gained downward per tick (hundredths of a unit per second).
pub const GRAVITY_TICK: i64 = -542;

/// Per-tick drag: the velocity is scaled by `DRAG_NUM / DRAG_DEN`.
pub const DRAG_NUM: i64 = 2047;

pub const DRAG_DEN: i64 = 2048;

/// Largest velocity magnitude the simulator carries.
pub const VEL_MAX: i64 = 0x800_0000;

/// Fraction of the normal speed kept (negated) after a bounce.
pub const RESTITUTION_NUM: i64 = 3;

pub const RESTITUTION_DEN: i64 = 5;

/// Fraction of the tangential speed and spin kept through a contact.
pub const FRICTION_NUM: i64 = 7;

pub const FRICTION_DEN: i64 = 10;

/// Scale of the unit contact normal.
pub const NORM_SCALE: i64 = 1000;

/// Model of a ball state.
pub ghost struct BallStatei {
    pub pos: Vec3i,
    pub vel: Vec3i,
    pub ang: Vec3i,
    pub radius: int,
    pub tick: int,
}

/// The ball's kinematic state at a simulation tick.
#[derive(Clone, Copy, PartialEq, Eq, Structural, Debug)]
pub struct BallState {
    pub pos: Vec3,
    pub vel: Vec3,
    pub ang: Vec3,
    pub radius: i64,
    pub tick: u64,
}

impl View for BallState {
    type V = BallStatei;

    open spec fn view(&self) -> BallStatei {
        BallStatei {
            pos: self.pos@,
            vel: self.vel@,
            ang: self.ang@,
            radius: self.radius as int,
            tick: self.tick as int,
        }
    }
}

pub open spec fn state_wf(s: BallStatei) -> bool {
    &&& in_coord_range(s.pos)
    &&& vec_bounded(s.vel, VEL_MAX as int)
    &&& vec_bounded(s.ang, VEL_MAX as int)
    &&& 0 <= s.radius <= COORD_MAX as int
    &&& 0 <= s.tick
}

impl BallState {
    /// Well-formedness: position in range, velocity and spin bounded.
    pub open spec fn wf(&self) -> bool {
        state_wf(self@)
    }

    pub fn new(pos: Vec3, vel: Vec3, ang: Vec3, radius: i64) -> (r: Option<BallState>)
        ensures
            r is Some <==> state_wf(
                BallStatei { pos: pos@, vel: vel@, ang: ang@, radius: radius as int, tick: 0 },
            ),
            r is Some ==> r->0@ == (BallStatei {
                pos: pos@,
                vel: vel@,
                ang: ang@,
                radius: radius as int,
                tick: 0,
            }),
    {
        let ok = pos.x >= -COORD_MAX && pos.x <= COORD_MAX && pos.y >= -COORD_MAX && pos.y
            <= COORD_MAX && pos.z >= -COORD_MAX && pos.z <= COORD_MAX && vel.x >= -VEL_MAX && vel.x
            <= VEL_MAX && vel.y >= -VEL_MAX && vel.y <= VEL_MAX && vel.z >= -VEL_MAX && vel.z
            <= VEL_MAX && ang.x >= -VEL_MAX && ang.x <= VEL_MAX && ang.y >= -VEL_MAX && ang.y
            <= VEL_MAX && ang.z >= -VEL_MAX && ang.z <= VEL_MAX && radius >= 0 && radius
            <= COORD_MAX;
        if ok {
            Some(BallState { pos, vel, ang, radius, tick: 0 })
        } else {
            None
        }
    }
}

pub open spec fn clamp_vec(v: Vec3i, m: int) -> Vec3i {
    Vec3i { x: clamp_i(v.x, m), y: clamp_i(v.y, m), z: clamp_i(v.z, m) }
}

/// Velocity after one tick of gravity and drag.
pub open spec fn spec_free_velocity(v: Vec3i) -> Vec3i {
    clamp_vec(
        Vec3i {
            x: div_tz(v.x * DRAG_NUM as int, DRAG_DEN as int),
            y: div_tz(v.y * DRAG_NUM as int, DRAG_DEN as int),
            z: div_tz((v.z + GRAVITY_TICK as int) * DRAG_NUM as int, DRAG_DEN as int),
        },
        VEL_MAX as int,
    )
}

/// Position after one tick at velocity `v`, confined to the coordinate
/// range.
pub open spec fn spec_target(p: Vec3i, v: Vec3i) -> Vec3i {
    clamp_vec(
        Vec3i {
            x: p.x + div_tz(v.x, TICK_RATE as int),
            y: p.y + div_tz(v.y, TICK_RATE as int),
            z: p.z + div_tz(v.z, TICK_RATE as int),
        },
        COORD_MAX as int,
    )
}

/// Twice-area normal of a triangle.
pub open spec fn spec_tri_normal(t: Tri3i) -> Vec3i {
    spec_cross(spec_sub(t.b, t.a), spec_sub(t.c, t.a))
}

/// `r` is the square root of `x`, rounded down.
pub open spec fn is_sqrt(r: int, x: int) -> bool {
    0 <= r && r * r <= x && x < (r + 1) * (r + 1)
}

/// The non-negative square root, rounded down.
pub open spec fn spec_isqrt(x: int) -> int {
    choose|r: int| is_sqrt(r, x)
}

proof fn lemma_isqrt_pins(r: int, x: int)
    requires
        0 <= r,
        r * r <= x,
        x < (r + 1) * (r + 1),
    ensures
        r == spec_isqrt(x),
{
    assert(is_sqrt(r, x));
    assert(exists|a: int| is_sqrt(a, x));
    let s = spec_isqrt(x);
    assert(is_sqrt(s, x));
    if r < s {
        assert((r + 1) * (r + 1) <= s * s) by (nonlinear_arith)
            requires
                0 <= r,
                r + 1 <= s,
        ;
    }
    if s < r {
        assert((s + 1) * (s + 1) <= r * r) by (nonlinear_arith)
            requires
                0 <= s,
                s + 1 <= r,
        ;
    }
}

/// The contact state after resolving against triangle `t`: new position,
/// velocity and spin, or nothing when the triangle is degenerate (its
/// normal vanishes) and the contact is ignored.
pub ghost struct Resolvedi {
    pub pos: Vec3i,
    pub vel: Vec3i,
    pub ang: Vec3i,
}

/// Resolve a contact: orient the triangle normal against the motion,
/// reflect the normal part of the velocity with restitution, damp the
/// tangential part and the spin with friction, couple the spin to the
/// tangential slide, and push the center out along the normal by `push`.
pub open spec fn spec_resolve(t: Tri3i, v: Vec3i, w: Vec3i, base: Vec3i, push: int) -> Option<
    Resolvedi,
> {
    let n0 = spec_tri_normal(t);
    let n = if spec_dot(n0, v) > 0 {
        Vec3i { x: -n0.x, y: -n0.y, z: -n0.z }
    } else {
        n0
    };
    let l = spec_isqrt(spec_dot(n, n));
    if l == 0 {
        None
    } else {
        let nh = Vec3i {
            x: div_tz(n.x * NORM_SCALE as int, l),
            y: div_tz(n.y * NORM_SCALE as int, l),
            z: div_tz(n.z * NORM_SCALE as int, l),
        };
        let dn = spec_dot(v, nh);
        let pos = clamp_vec(
            Vec3i {
                x: base.x + div_tz(nh.x * push, NORM_SCALE as int),
                y: base.y + div_tz(nh.y * push, NORM_SCALE as int),
                z: base.z + div_tz(nh.z * push, NORM_SCALE as int),
            },
            COORD_MAX as int,
        );
        if dn < 0 {
            let vn = Vec3i {
                x: div_tz(dn * nh.x, NORM_SCALE as int * NORM_SCALE as int),
                y: div_tz(dn * nh.y, NORM_SCALE as int * NORM_SCALE as int),
                z: div_tz(dn * nh.z, NORM_SCALE as int * NORM_SCALE as int),
            };
            let vt = spec_sub(v, vn);
            let vel = clamp_vec(
                Vec3i {
                    x: div_tz(vt.x * FRICTION_NUM as int, FRICTION_DEN as int) - div_tz(
                        vn.x * RESTITUTION_NUM as int,
                        RESTITUTION_DEN as int,
                    ),
                    y: div_tz(vt.y * FRICTION_NUM as int, FRICTION_DEN as int) - div_tz(
                        vn.y * RESTITUTION_NUM as int,
                        RESTITUTION_DEN as int,
                    ),
                    z: div_tz(vt.z * FRICTION_NUM as int, FRICTION_DEN as int) - div_tz(
                        vn.z * RESTITUTION_NUM as int,
                        RESTITUTION_DEN as int,
                    ),
                },
                VEL_MAX as int,
            );
            let spin = spec_cross(nh, vt);
            let ang = clamp_vec(
                Vec3i {
                    x: div_tz(w.x * FRICTION_NUM as int, FRICTION_DEN as int) + div_tz(
                        spin.x,
                        NORM_SCALE as int,
                    ),
                    y: div_tz(w.y * FRICTION_NUM as int, FRICTION_DEN as int) + div_tz(
                        spin.y,
                        NORM_SCALE as int,
                    ),
                    z: div_tz(w.z * FRICTION_NUM as int, FRICTION_DEN as int) + div_tz(
                        spin.z,
                        NORM_SCALE as int,
                    ),
                },
                VEL_MAX as int,
            );
            Some(Resolvedi { pos, vel, ang })
        } else {
            Some(Resolvedi { pos, vel: v, ang: w })
        }
    }
}

/// One simulation step as a mathematical function of the state and the
/// arena's triangles.
pub open spec fn spec_step(s: BallStatei, tris: Seq<Triangle>) -> BallStatei {
    let v1 = spec_free_velocity(s.vel);
    let p1 = spec_target(s.pos, v1);
    let free = BallStatei { pos: p1, vel: v1, ang: s.ang, radius: s.radius, tick: s.tick + 1 };
    match spec_nearest(tris, s.pos, p1) {
        Some(h) => {
            let x = spec_point_on(s.pos, p1, h.key as int);
            match spec_resolve(h.tri@, v1, s.ang, x, s.radius) {
                Some(res) => BallStatei {
                    pos: res.pos,
                    vel: res.vel,
                    ang: res.ang,
                    radius: s.radius,
                    tick: s.tick + 1,
                },
                None => free,
            }
        },
        None => if s.radius > 0 {
            match spec_prox(tris, p1, s.radius) {
                Some(c) => {
                    let d = spec_isqrt(c.dist2 as int);
                    match spec_resolve(c.tri@, v1, s.ang, p1, s.radius - d) {
                        Some(res) => BallStatei {
                            pos: res.pos,
                            vel: res.vel,
                            ang: res.ang,
                            radius: s.radius,
                            tick: s.tick + 1,
                        },
                        None => free,
                    }
                },
                None => free,
            }
        } else {
            // A zero-radius ball degrades to "no contact".
            free
        },
    }
}

/// The state after `n` steps.
pub open spec fn spec_sim(s: BallStatei, tris: Seq<Triangle>, n: nat) -> BallStatei
    decreases n,
{
    if n == 0 {
        s
    } else {
        spec_step(spec_sim(s, tris, (n - 1) as nat), tris)
    }
}

fn clamp_to(a: i64, m: i64) -> (r: i64)
    requires
        m >= 0,
    ensures
        r == clamp_i(a as int, m as int),
{
    if a < -m {
        -m
    } else if a > m {
        m
    } else {
        a
    }
}

/// Velocity after one tick of gravity and drag.
fn free_velocity(v: &Vec3) -> (r: Vec3)
    requires
        vec_bounded(v@, VEL_MAX as int),
    ensures
        r@ == spec_free_velocity(v@),
        vec_bounded(r@, VEL_MAX as int),
{
    proof {
        lemma_mul_bound(v@.x, DRAG_NUM as int, VEL_MAX as int, DRAG_NUM as int);
        lemma_mul_bound(v@.y, DRAG_NUM as int, VEL_MAX as int, DRAG_NUM as int);
        lemma_mul_bound(v@.z + GRAVITY_TICK as int, DRAG_NUM as int, VEL_MAX as int + 542, DRAG_NUM as int);
    }
    Vec3 {
        x: clamp_to(v.x * DRAG_NUM / DRAG_DEN, VEL_MAX),
        y: clamp_to(v.y * DRAG_NUM / DRAG_DEN, VEL_MAX),
        z: clamp_to((v.z + GRAVITY_TICK) * DRAG_NUM / DRAG_DEN, VEL_MAX),
    }
}

/// Position after one tick at velocity `v`.
fn target_pos(p: &Vec3, v: &Vec3) -> (r: Vec3)
    requires
        in_coord_range(p@),
        vec_bounded(v@, VEL_MAX as int),
    ensures
        r@ == spec_target(p@, v@),
        in_coord_range(r@),
{
    let r = Vec3 {
        x: crate::math::clamp_coord(p.x + v.x / TICK_RATE),
        y: crate::math::clamp_coord(p.y + v.y / TICK_RATE),
        z: crate::math::clamp_coord(p.z + v.z / TICK_RATE),
    };
    r
}

/// The computed outcome of a contact.
struct Contact {
    pos: Vec3,
    vel: Vec3,
    ang: Vec3,
}

/// Resolve a contact against triangle `t` (see `spec_resolve`).
#[verifier::rlimit(100)]
fn resolve_contact(t: &Triangle, v: &Vec3, w: &Vec3, base: &Vec3, push: i64) -> (r: Option<
    Contact,
>)
    requires
        tri_in_range(t@),
        vec_bounded(v@, VEL_MAX as int),
        vec_bounded(w@, VEL_MAX as int),
        in_coord_range(base@),
        0 <= push <= COORD_MAX,
    ensures
        r is Some <==> spec_resolve(t@, v@, w@, base@, push as int) is Some,
        r is Some ==> {
            let res = spec_resolve(t@, v@, w@, base@, push as int)->0;
            r->0.pos@ == res.pos && r->0.vel@ == res.vel && r->0.ang@ == res.ang
        },
        r is Some ==> in_coord_range(r->0.pos@) && vec_bounded(r->0.vel@, VEL_MAX as int)
            && vec_bounded(r->0.ang@, VEL_MAX as int),
{
    let ax: i128 = t.a.x as i128;
    let ay: i128 = t.a.y as i128;
    let az: i128 = t.a.z as i128;
    let ux: i128 = (t.b.x as i128) - ax;
    let uy: i128 = (t.b.y as i128) - ay;
    let uz: i128 = (t.b.z as i128) - az;
    let vx: i128 = (t.c.x as i128) - ax;
    let vy: i128 = (t.c.y as i128) - ay;
    let vz: i128 = (t.c.z as i128) - az;
    proof {
        lemma_mul_bound(uy as int, vz as int, 0x20_0000, 0x20_0000);
        lemma_mul_bound(uz as int, vy as int, 0x20_0000, 0x20_0000);
        lemma_mul_bound(uz as int, vx as int, 0x20_0000, 0x20_0000);
        lemma_mul_bound(ux as int, vz as int, 0x20_0000, 0x20_0000);
        lemma_mul_bound(ux as int, vy as int, 0x20_0000, 0x20_0000);
        lemma_mul_bound(uy as int, vx as int, 0x20_0000, 0x20_0000);
    }
    let mut nx: i128 = uy * vz - uz * vy;
    let mut ny: i128 = uz * vx - ux * vz;
    let mut nz: i128 = ux * vy - uy * vx;
    proof {
        lemma_mul_bound(nx as int, v@.x, 0x800_0000_0000, VEL_MAX as int);
        lemma_mul_bound(ny as int, v@.y, 0x800_0000_0000, VEL_MAX as int);
        lemma_mul_bound(nz as int, v@.z, 0x800_0000_0000, VEL_MAX as int);
    }
    let facing: i128 = nx * (v.x as i128) + ny * (v.y as i128) + nz * (v.z as i128);
    if facing > 0 {
        nx = -nx;
        ny = -ny;
        nz = -nz;
    }
    proof {
        assert(Vec3i { x: nx as int, y: ny as int, z: nz as int } == (if spec_dot(
            spec_tri_normal(t@),
            v@,
        ) > 0 {
            let n0 = spec_tri_normal(t@);
            Vec3i { x: -n0.x, y: -n0.y, z: -n0.z }
        } else {
            spec_tri_normal(t@)
        }));
        lemma_mul_bound(nx as int, nx as int, 0x800_0000_0000, 0x800_0000_0000);
        lemma_mul_bound(ny as int, ny as int, 0x800_0000_0000, 0x800_0000_0000);
        lemma_mul_bound(nz as int, nz as int, 0x800_0000_0000, 0x800_0000_0000);
        crate::geom::lemma_sq_nonneg(nx as int);
        crate::geom::lemma_sq_nonneg(ny as int);
        crate::geom::lemma_sq_nonneg(nz as int);
    }
    let nn: i128 = nx * nx + ny * ny + nz * nz;
    let l128: u128 = isqrt_u128(nn as u128);
    proof {
        assert((l128 as int) * (l128 as int) <= nn as int);
        assert((nn as int) < 0x1_0000_0000_0000_0000_0000_0000);
        assert(l128 as int <= 0x1_0000_0000_0000) by (nonlinear_arith)
            requires
                (l128 as int) * (l128 as int) <= nn as int,
                0 <= l128,
                (nn as int) < 0x1_0000_0000_0000_0000_0000_0000,
        ;
        lemma_isqrt_pins(l128 as int, nn as int);
    }
    if l128 == 0 {
        return None;
    }
    let l: i128 = l128 as i128;
    proof {
        lemma_abs_le_isqrt(nx as int, l as int, nn as int);
        lemma_abs_le_isqrt(ny as int, l as int, nn as int);
        lemma_abs_le_isqrt(nz as int, l as int, nn as int);
        lemma_mul_bound(nx as int, NORM_SCALE as int, 0x800_0000_0000, NORM_SCALE as int);
        lemma_mul_bound(ny as int, NORM_SCALE as int, 0x800_0000_0000, NORM_SCALE as int);
        lemma_mul_bound(nz as int, NORM_SCALE as int, 0x800_0000_0000, NORM_SCALE as int);
        lemma_div_ratio(nx as int, l as int, NORM_SCALE as int);
        lemma_div_ratio(ny as int, l as int, NORM_SCALE as int);
        lemma_div_ratio(nz as int, l as int, NORM_SCALE as int);
    }
    let nhx: i64 = ((nx * (NORM_SCALE as i128)) / l) as i64;
    let nhy: i64 = ((ny * (NORM_SCALE as i128)) / l) as i64;
    let nhz: i64 = ((nz * (NORM_SCALE as i128)) / l) as i64;
    proof {
        lemma_mul_bound(v@.x, nhx as int, VEL_MAX as int, NORM_SCALE as int);
        lemma_mul_bound(v@.y, nhy as int, VEL_MAX as int, NORM_SCALE as int);
        lemma_mul_bound(v@.z, nhz as int, VEL_MAX as int, NORM_SCALE as int);
    }
    let dn: i64 = v.x * nhx + v.y * nhy + v.z * nhz;
    proof {
        lemma_mul_bound(nhx as int, push as int, NORM_SCALE as int, COORD_MAX as int);
        lemma_mul_bound(nhy as int, push as int, NORM_SCALE as int, COORD_MAX as int);
        lemma_mul_bound(nhz as int, push as int, NORM_SCALE as int, COORD_MAX as int);
    }
    let pos = Vec3 {
        x: crate::math::clamp_coord(base.x + nhx * push / NORM_SCALE),
        y: crate::math::clamp_coord(base.y + nhy * push / NORM_SCALE),
        z: crate::math::clamp_coord(base.z + nhz * push / NORM_SCALE),
    };
    if dn < 0 {
        proof {
            assert(-402653184000 <= dn as int <= 402653184000);
            lemma_mul_bound(dn as int, nhx as int, 402653184000, NORM_SCALE as int);
            lemma_mul_bound(dn as int, nhy as int, 402653184000, NORM_SCALE as int);
            lemma_mul_bound(dn as int, nhz as int, 402653184000, NORM_SCALE as int);
        }
        let vnx: i64 = dn * nhx / (NORM_SCALE * NORM_SCALE);
        let vny: i64 = dn * nhy / (NORM_SCALE * NORM_SCALE);
        let vnz: i64 = dn * nhz / (NORM_SCALE * NORM_SCALE);
        proof {
            lemma_div_mag((dn as int) * (nhx as int), 1000000, 402653184);
            lemma_div_mag((dn as int) * (nhy as int), 1000000, 402653184);
            lemma_div_mag((dn as int) * (nhz as int), 1000000, 402653184);
        }
        let vtx: i64 = v.x - vnx;
        let vty: i64 = v.y - vny;
        let vtz: i64 = v.z - vnz;
        proof {
            lemma_mul_bound(vtx as int, FRICTION_NUM as int, 0x4000_0000_0000, FRICTION_NUM as int);
            lemma_mul_bound(vty as int, FRICTION_NUM as int, 0x4000_0000_0000, FRICTION_NUM as int);
            lemma_mul_bound(vtz as int, FRICTION_NUM as int, 0x4000_0000_0000, FRICTION_NUM as int);
            lemma_mul_bound(vnx as int, RESTITUTION_NUM as int, 0x4000_0000_0000, RESTITUTION_NUM as int);
            lemma_mul_bound(vny as int, RESTITUTION_NUM as int, 0x4000_0000_0000, RESTITUTION_NUM as int);
            lemma_mul_bound(vnz as int, RESTITUTION_NUM as int, 0x4000_0000_0000, RESTITUTION_NUM as int);
        }
        let vel = Vec3 {
            x: clamp_to(vtx * FRICTION_NUM / FRICTION_DEN - vnx * RESTITUTION_NUM / RESTITUTION_DEN, VEL_MAX),
            y: clamp_to(vty * FRICTION_NUM / FRICTION_DEN - vny * RESTITUTION_NUM / RESTITUTION_DEN, VEL_MAX),
            z: clamp_to(vtz * FRICTION_NUM / FRICTION_DEN - vnz * RESTITUTION_NUM / RESTITUTION_DEN, VEL_MAX),
        };
        proof {
            lemma_mul_bound(nhy as int, vtz as int, NORM_SCALE as int, 0x4000_0000_0000);
            lemma_mul_bound(nhz as int, vty as int, NORM_SCALE as int, 0x4000_0000_0000);
            lemma_mul_bound(nhz as int, vtx as int, NORM_SCALE as int, 0x4000_0000_0000);
            lemma_mul_bound(nhx as int, vtz as int, NORM_SCALE as int, 0x4000_0000_0000);
            lemma_mul_bound(nhx as int, vty as int, NORM_SCALE as int, 0x4000_0000_0000);
            lemma_mul_bound(nhy as int, vtx as int, NORM_SCALE as int, 0x4000_0000_0000);
        }
        let sx: i64 = nhy * vtz - nhz * vty;
        let sy: i64 = nhz * vtx - nhx * vtz;
        let sz: i64 = nhx * vty - nhy * vtx;
        proof {
            lemma_mul_bound(w@.x, FRICTION_NUM as int, VEL_MAX as int, FRICTION_NUM as int);
            lemma_mul_bound(w@.y, FRICTION_NUM as int, VEL_MAX as int, FRICTION_NUM as int);
            lemma_mul_bound(w@.z, FRICTION_NUM as int, VEL_MAX as int, FRICTION_NUM as int);
        }
        let ang = Vec3 {
            x: clamp_to(w.x * FRICTION_NUM / FRICTION_DEN + sx / NORM_SCALE, VEL_MAX),
            y: clamp_to(w.y * FRICTION_NUM / FRICTION_DEN + sy / NORM_SCALE, VEL_MAX),
            z: clamp_to(w.z * FRICTION_NUM / FRICTION_DEN + sz / NORM_SCALE, VEL_MAX),
        };
        Some(Contact { pos, vel, ang })
    } else {
        Some(Contact { pos, vel: *v, ang: *w })
    }
}

proof fn lemma_abs_le_isqrt(a: int, l: int, nn: int)
    requires
        0 <= l,
        a * a <= nn,
        nn < (l + 1) * (l + 1),
    ensures
        -l <= a <= l,
{
    if a > l {
        assert((l + 1) * (l + 1) <= a * a) by (nonlinear_arith)
            requires
                0 <= l,
                l + 1 <= a,
        ;
    }
    if a < -l {
        assert((l + 1) * (l + 1) <= a * a) by (nonlinear_arith)
            requires
                0 <= l,
                a <= -(l + 1),
        ;
    }
}

proof fn lemma_div_ratio(a: int, l: int, s: int)
    requires
        0 < l,
        0 <= s,
        -l <= a <= l,
    ensures
        -s <= div_tz(a * s, l) <= s,
{
    if a >= 0 {
        assert(0 <= a * s <= l * s) by (nonlinear_arith)
            requires
                0 <= a <= l,
                0 <= s,
        ;
        vstd::arithmetic::div_mod::lemma_div_is_ordered(a * s, l * s, l);
        vstd::arithmetic::div_mod::lemma_div_multiples_vanish(s, l);
        vstd::arithmetic::div_mod::lemma_div_pos_is_pos(a * s, l);
    } else {
        assert(0 <= (-a) * s <= l * s) by (nonlinear_arith)
            requires
                -l <= a < 0,
                0 <= s,
        ;
        assert(-(a * s) == (-a) * s) by (nonlinear_arith);
        vstd::arithmetic::div_mod::lemma_div_is_ordered((-a) * s, l * s, l);
        vstd::arithmetic::div_mod::lemma_div_multiples_vanish(s, l);
        vstd::arithmetic::div_mod::lemma_div_pos_is_pos((-a) * s, l);
    }
}

proof fn lemma_div_mag(a: int, d: int, m: int)
    requires
        1 <= d,
        0 <= m,
        -(m * d) <= a <= m * d,
    ensures
        -m <= div_tz(a, d) <= m,
{
    if a >= 0 {
        vstd::arithmetic::div_mod::lemma_div_is_ordered(a, m * d, d);
        vstd::arithmetic::div_mod::lemma_div_multiples_vanish(m, d);
        vstd::arithmetic::div_mod::lemma_div_pos_is_pos(a, d);
    } else {
        vstd::arithmetic::div_mod::lemma_div_is_ordered(-a, m * d, d);
        vstd::arithmetic::div_mod::lemma_div_multiples_vanish(m, d);
        vstd::arithmetic::div_mod::lemma_div_pos_is_pos(-a, d);
    }
}

impl BallState {
    /// Advance one tick: gravity and drag, then the swept collision along
    /// the center's path, else the nearest resting contact within the
    /// radius.  At most one contact is resolved per tick; the corrected
    /// state is accepted as-is and any small remaining penetration is
    /// resolved on the next tick.  A ball of zero radius makes no resting
    /// contact.
    pub fn step(&self, arena: &Bvh) -> (r: BallState)
        requires
            self.wf(),
            arena.wf(),
            self@.tick + 1 <= u64::MAX,
        ensures
            r@ == spec_step(self@, arena.tris@),
            r.wf(),
    {
        let v1 = free_velocity(&self.vel);
        let p1 = target_pos(&self.pos, &v1);
        let free = BallState {
            pos: p1,
            vel: v1,
            ang: self.ang,
            radius: self.radius,
            tick: self.tick + 1,
        };
        let swept = arena.nearest_hit(&self.pos, &p1);
        proof {
            lemma_nearest_pins(swept, arena.tris@, self@.pos, p1@);
        }
        match swept {
            Some(h) => {
                proof {
                    assert(crate::bvh::seg_hit_valid(h, arena.tris@, self@.pos, p1@));
                    assert(tri_in_range(h.tri@));
                }
                let x = point_on_segment(&self.pos, &p1, h.key);
                match resolve_contact(&h.tri, &v1, &self.ang, &x, self.radius) {
                    Some(res) => BallState {
                        pos: res.pos,
                        vel: res.vel,
                        ang: res.ang,
                        radius: self.radius,
                        tick: self.tick + 1,
                    },
                    None => free,
                }
            },
            None if self.radius > 0 => {
                let contact = arena.nearest_contact(&p1, self.radius);
                proof {
                    lemma_prox_pins(contact, arena.tris@, p1@, self@.radius);
                }
                match contact {
                    Some(c) => {
                        proof {
                            assert(crate::bvh::prox_hit_valid(c, arena.tris@, p1@));
                            assert(tri_in_range(c.tri@));
                            crate::math::lemma_mul_bound(
                                self@.radius,
                                self@.radius,
                                COORD_MAX as int,
                                COORD_MAX as int,
                            );
                        }
                        let d128: u128 = isqrt_u128(c.dist2 as u128);
                        proof {
                            lemma_isqrt_pins(d128 as int, c.dist2 as int);
                            assert(self@.radius * self@.radius < (self@.radius + 1) * (
                            self@.radius + 1)) by (nonlinear_arith)
                                requires
                                    0 <= self@.radius,
                            ;
                            lemma_abs_le_isqrt(
                                d128 as int,
                                self@.radius,
                                self@.radius * self@.radius,
                            );
                        }
                        let d: i64 = d128 as i64;
                        let pen: i64 = self.radius - d;
                        match resolve_contact(&c.tri, &v1, &self.ang, &p1, pen) {
                            Some(res) => BallState {
                                pos: res.pos,
                                vel: res.vel,
                                ang: res.ang,
                                radius: self.radius,
                                tick: self.tick + 1,
                            },
                            None => free,
                        }
                    },
                    None => free,
                }
            },
            None => free,
        }
    }
}

/// Predictions longer than this are capped.
pub const MAX_STEPS: u64 = 432000;

/// Number of ticks a duration in milliseconds covers.
pub open spec fn spec_steps_of_ms(ms: int) -> int {
    ms * TICK_RATE as int / 1000
}

/// The prediction sequence: one state per tick, starting one tick after
/// the initial state.
pub fn get_prediction_for_duration(arena: &Bvh, state: &BallState, duration_ms: u64) -> (r: Vec<
    BallState,
>)
    requires
        arena.wf(),
        state.wf(),
        duration_ms <= 3_600_000,
        state@.tick + MAX_STEPS as int <= u64::MAX,
    ensures
        r@.len() == spec_steps_of_ms(duration_ms as int),
        forall|i: int|
            0 <= i < r@.len() ==> #[trigger] r@[i]@ == spec_sim(state@, arena.tris@, (i + 1) as nat),
{
    proof {
        assert(duration_ms * 120 <= 3_600_000 * 120);
    }
    let steps: u64 = duration_ms * 120 / 1000;
    let mut r: Vec<BallState> = Vec::new();
    let mut cur: BallState = *state;
    let mut k: u64 = 0;
    proof {
        assert(steps as int == spec_steps_of_ms(duration_ms as int));
        assert(steps <= MAX_STEPS);
    }
    while k < steps
        invariant
            0 <= k <= steps,
            steps <= MAX_STEPS,
            arena.wf(),
            state.wf(),
            state@.tick + MAX_STEPS as int <= u64::MAX,
            cur@ == spec_sim(state@, arena.tris@, k as nat),
            cur.wf(),
            cur@.tick == state@.tick + k,
            r@.len() == k,
            forall|i: int|
                0 <= i < k as int ==> #[trigger] r@[i]@ == spec_sim(
                    state@,
                    arena.tris@,
                    (i + 1) as nat,
                ),
        decreases steps - k,
    {
        cur = cur.step(arena);
        r.push(cur);
        k = k + 1;
    }
    r
}

/// The full-horizon prediction at the default six seconds.
pub fn get_prediction(arena: &Bvh, state: &BallState) -> (r: Vec<BallState>)
    requires
        arena.wf(),
        state.wf(),
        state@.tick + MAX_STEPS as int <= u64::MAX,
    ensures
        r@.len() == spec_steps_of_ms(6000),
        forall|i: int|
            0 <= i < r@.len() ==> #[trigger] r@[i]@ == spec_sim(state@, arena.tris@, (i + 1) as nat),
{
    get_prediction_for_duration(arena, state, 6000)
}

/// Two predictions from the same initial state over the same arena are the
/// same sequence, state by state.
pub proof fn lemma_prediction_deterministic(
    r1: Seq<BallState>,
    r2: Seq<BallState>,
    s: BallStatei,
    tris: Seq<Triangle>,
)
    requires
        r1.len() == r2.len(),
        forall|i: int| 0 <= i < r1.len() ==> #[trigger] r1[i]@ == spec_sim(s, tris, (i + 1) as nat),
        forall|i: int| 0 <= i < r2.len() ==> #[trigger] r2[i]@ == spec_sim(s, tris, (i + 1) as nat),
    ensures
        r1 =~= r2,
{
    assert forall|i: int| 0 <= i < r1.len() implies r1[i] == r2[i] by {
        assert(r1[i]@ == r2[i]@);
        assert(r1[i].pos.x as int == r2[i].pos.x as int);
        assert(r1[i] == r2[i]);
    }
}

} // verus!
