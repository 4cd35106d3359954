//! Per-mode arena builders: compose primitive panels (floor, ceiling,
//! walls, goals, ramps) through rigid transforms into one mesh and index it
//! with a bounding-volume hierarchy.
//!
//! The magic offsets and panel sizes are fixed per game mode, written here
//! in hundredths of a game unit.  Each builder takes the raw panel meshes
//! (loaded elsewhere) and returns the ready arena index, or nothing when
//! the combined geometry is empty or exceeds the supported size.

use vstd::prelude::*;

use crate::bvh::lemma_views_multiset;
use crate::bvh::Bvh;
use crate::math::abs3_fits;
use crate::math::spec_combine;
use crate::math::Mat3i;
use crate::math::COORD_MAX;
use crate::math::spec_add;
use crate::math::spec_sub;
use crate::math::Mat3;
use crate::math::Vec3;
use crate::math::Vec3i;
use crate::mesh::concat_models;
use crate::mesh::lemma_merge_models;
use crate::mesh::lemma_models_transform;
use crate::mesh::lemma_models_translate;
use crate::mesh::lemma_totals_div3;
use crate::mesh::shift_tri;
use crate::mesh::total_id_len;
use crate::mesh::views_of;
use crate::mesh::xform_tri;
use crate::mesh::Tri3i;
use crate::mesh::total_vert_len;
use crate::mesh::Mesh;
use crate::mesh::MERGE_MAX;

verus! {

/// A rectangular panel: two triangles over the four corners of the
/// parallelogram centered at `p` with half-extents `e1` and `e2`.
pub fn quad(p: Vec3, e1: Vec3, e2: Vec3) -> (r: Mesh)
    requires
        abs3_fits(p@, e1@, e2@),
    ensures
        r.wf(),
        r.num_tris() == 2,
        r.num_verts() == 4,
        r.vertex(0) == spec_add(spec_add(p@, e1@), e2@),
        r.vertex(1) == spec_add(spec_sub(p@, e1@), e2@),
        r.vertex(2) == spec_sub(spec_sub(p@, e1@), e2@),
        r.vertex(3) == spec_sub(spec_add(p@, e1@), e2@),
        r.ids@ == seq![0usize, 1usize, 3usize, 1usize, 2usize, 3usize],
        r.models() == quad_models(p@, e1@, e2@),
{
    let mut ids: Vec<usize> = Vec::new();
    ids.push(0);
    ids.push(1);
    ids.push(3);
    ids.push(1);
    ids.push(2);
    ids.push(3);
    let mut vertices: Vec<i64> = Vec::new();
    vertices.push(p.x + e1.x + e2.x);
    vertices.push(p.y + e1.y + e2.y);
    vertices.push(p.z + e1.z + e2.z);
    vertices.push(p.x - e1.x + e2.x);
    vertices.push(p.y - e1.y + e2.y);
    vertices.push(p.z - e1.z + e2.z);
    vertices.push(p.x - e1.x - e2.x);
    vertices.push(p.y - e1.y - e2.y);
    vertices.push(p.z - e1.z - e2.z);
    vertices.push(p.x + e1.x - e2.x);
    vertices.push(p.y + e1.y - e2.y);
    vertices.push(p.z + e1.z - e2.z);
    let r = Mesh { ids, vertices };
    proof {
        assert(r.ids@ =~= seq![0usize, 1usize, 3usize, 1usize, 2usize, 3usize]);
        assert forall|q: int| 0 <= q < r.ids@.len() implies (r.ids@[q] as int) < r.num_verts() by {
        }
        assert(r.models() =~= quad_models(p@, e1@, e2@));
    }
    r
}

/// The two model triangles of a panel.
pub open spec fn quad_models(p: Vec3i, e1: Vec3i, e2: Vec3i) -> Seq<Tri3i> {
    let v0 = spec_add(spec_add(p, e1), e2);
    let v1 = spec_add(spec_sub(p, e1), e2);
    let v2 = spec_sub(spec_sub(p, e1), e2);
    let v3 = spec_sub(spec_add(p, e1), e2);
    seq![Tri3i { a: v0, b: v1, c: v3 }, Tri3i { a: v1, b: v2, c: v3 }]
}

/// Triangles transformed by a linear map with divisor `den`.
pub open spec fn xformed(s: Seq<Tri3i>, m: Mat3i, den: int) -> Seq<Tri3i> {
    s.map_values(|t: Tri3i| xform_tri(m, den, t))
}

/// Triangles offset by `o`.
pub open spec fn shifted(s: Seq<Tri3i>, o: Vec3i) -> Seq<Tri3i> {
    s.map_values(|t: Tri3i| shift_tri(t, o))
}

/// The mirror across the plane `x = 0`.
pub open spec fn spec_flip_x() -> Mat3i {
    Mat3i {
        x: Vec3i { x: -1, y: 0, z: 0 },
        y: Vec3i { x: 0, y: 1, z: 0 },
        z: Vec3i { x: 0, y: 0, z: 1 },
    }
}

/// The mirror across the plane `y = 0`.
pub open spec fn spec_flip_y() -> Mat3i {
    Mat3i {
        x: Vec3i { x: 1, y: 0, z: 0 },
        y: Vec3i { x: 0, y: -1, z: 0 },
        z: Vec3i { x: 0, y: 0, z: 1 },
    }
}

/// The axis-aligned scaling by `d`.
pub open spec fn spec_diag(d: int) -> Mat3i {
    Mat3i {
        x: Vec3i { x: d, y: 0, z: 0 },
        y: Vec3i { x: 0, y: d, z: 0 },
        z: Vec3i { x: 0, y: 0, z: d },
    }
}

/// A panel small enough that every builder's composition stays within the
/// merge and build bounds.
pub open spec fn panel_sized(m: &Mesh) -> bool {
    m.ids@.len() <= 0x10_0000 && m.vertices@.len() <= 0x10_0000
}

/// Mirror across the plane `x = 0`.
fn flip_x() -> (r: Mat3)
    ensures
        crate::math::mat_bounded(r@, 1),
        r@ == spec_flip_x(),
{
    Mat3 {
        x: Vec3 { x: -1, y: 0, z: 0 },
        y: Vec3 { x: 0, y: 1, z: 0 },
        z: Vec3 { x: 0, y: 0, z: 1 },
    }
}

/// Mirror across the plane `y = 0`.
fn flip_y() -> (r: Mat3)
    ensures
        crate::math::mat_bounded(r@, 1),
        r@ == spec_flip_y(),
{
    Mat3 {
        x: Vec3 { x: 1, y: 0, z: 0 },
        y: Vec3 { x: 0, y: -1, z: 0 },
        z: Vec3 { x: 0, y: 0, z: 1 },
    }
}

fn add_panel(list: &mut Vec<Mesh>, m: Mesh)
    requires
        forall|mi: int| 0 <= mi < old(list)@.len() ==> (#[trigger] old(list)@[mi]).wf(),
        m.wf(),
    ensures
        final(list)@ == old(list)@.push(m),
        forall|mi: int| 0 <= mi < final(list)@.len() ==> (#[trigger] final(list)@[mi]).wf(),
{
    list.push(m);
}

/// Merge the panels and index the result; rejects an empty or oversized
/// field.
fn assemble(list: &Vec<Mesh>) -> (r: Option<Bvh>)
    requires
        forall|mi: int| 0 <= mi < list@.len() ==> (#[trigger] list@[mi]).wf(),
    ensures
        r is Some ==> r->0.wf() && r->0.num_tris() == total_id_len(
            list@,
            list@.len() as int,
        ) / 3,
        r is Some ==> r->0.models().to_multiset() == concat_models(
            list@,
            list@.len() as int,
        ).to_multiset(),
        (0 < total_id_len(list@, list@.len() as int) <= 0x300_0000 && total_vert_len(
            list@,
            list@.len() as int,
        ) <= MERGE_MAX as int) ==> r is Some,
{
    proof {
        lemma_totals_div3(list@, list@.len() as int);
    }
    let mut tid: u128 = 0;
    let mut tvl: u128 = 0;
    let mut i: usize = 0;
    while i < list.len()
        invariant
            0 <= i <= list@.len(),
            tid == total_id_len(list@, i as int),
            tvl == total_vert_len(list@, i as int),
            tid <= (i as int) * 0xFFFF_FFFF_FFFF_FFFF,
            tvl <= (i as int) * 0xFFFF_FFFF_FFFF_FFFF,
        decreases list@.len() - i,
    {
        tid = tid + (list[i].ids.len() as u128);
        tvl = tvl + (list[i].vertices.len() as u128);
        i = i + 1;
    }
    if tid == 0 || tid > (MERGE_MAX as u128) || tvl > (MERGE_MAX as u128) {
        return None;
    }
    let field_mesh = Mesh::merge(list);
    let tris = field_mesh.to_triangle_list();
    proof {
        lemma_merge_models(list@, field_mesh);
        assert(views_of(tris@) =~= field_mesh.models());
    }
    if tris.len() > 0x100_0000 {
        return None;
    }
    match Bvh::build(&tris) {
        Some(b) => {
            proof {
                lemma_views_multiset(b.tris@, tris@);
            }
            Some(b)
        },
        None => None,
    }
}

/// The triangles of the composed standard field: four mirrored corner
/// copies, the translated goal and its mirror, the ramps and their
/// mirrors, then floor, ceiling and the two side walls.
pub open spec fn spec_soccar_panels(
    corner: &Mesh,
    goal: &Mesh,
    ramps_0: &Mesh,
    ramps_1: &Mesh,
) -> Seq<Tri3i> {
    let fx = spec_flip_x();
    let fy = spec_flip_y();
    let fxy = spec_combine(fx, fy);
    let c = corner.models();
    let g = shifted(goal.models(), Vec3i { x: 0, y: -512000, z: 0 });
    c + xformed(c, fx, 1) + xformed(c, fy, 1) + xformed(c, fxy, 1) + g + xformed(g, fy, 1)
        + ramps_0.models() + xformed(ramps_0.models(), fx, 1) + ramps_1.models() + xformed(
        ramps_1.models(),
        fx,
        1,
    ) + quad_models(
        Vec3i { x: 0, y: 0, z: 0 },
        Vec3i { x: 409600, y: 0, z: 0 },
        Vec3i { x: 0, y: 512000, z: 0 },
    ) + quad_models(
        Vec3i { x: 0, y: 0, z: 204800 },
        Vec3i { x: -409600, y: 0, z: 0 },
        Vec3i { x: 0, y: 512000, z: 0 },
    ) + quad_models(
        Vec3i { x: 409600, y: 0, z: 102400 },
        Vec3i { x: 0, y: -512000, z: 0 },
        Vec3i { x: 0, y: 0, z: 102400 },
    ) + quad_models(
        Vec3i { x: -409600, y: 0, z: 102400 },
        Vec3i { x: 0, y: 512000, z: 0 },
        Vec3i { x: 0, y: 0, z: 102400 },
    )
}

/// The standard field: four mirrored corners, two goals, ramps, floor,
/// ceiling and side walls.  Extents 4096 x 5120 x 2048 game units.
#[verifier::rlimit(100)]
pub fn initialize_soccar(
    soccar_corner: &Mesh,
    soccar_goal: &Mesh,
    soccar_ramps_0: &Mesh,
    soccar_ramps_1: &Mesh,
) -> (r: Option<Bvh>)
    requires
        soccar_corner.wf(),
        soccar_goal.wf(),
        soccar_ramps_0.wf(),
        soccar_ramps_1.wf(),
    ensures
        r is Some ==> r->0.wf(),
        r is Some ==> r->0.models().to_multiset() == spec_soccar_panels(
            soccar_corner,
            soccar_goal,
            soccar_ramps_0,
            soccar_ramps_1,
        ).to_multiset(),
        r is Some ==> r->0.num_tris() == 4 * soccar_corner.num_tris() + 2
            * soccar_goal.num_tris() + 2 * soccar_ramps_0.num_tris() + 2
            * soccar_ramps_1.num_tris() + 8,
        panel_sized(soccar_corner) && panel_sized(soccar_goal) && panel_sized(soccar_ramps_0)
            && panel_sized(soccar_ramps_1) ==> r is Some,
{
    let fx = flip_x();
    let fy = flip_y();
    let fxy = fx.dot(&fy);
    proof {
        assert(crate::math::mat_bounded(fxy@, COORD_MAX as int));
    }
    let floor = quad(
        Vec3::zero(),
        Vec3::new(409600, 0, 0),
        Vec3::new(0, 512000, 0),
    );
    let ceiling = quad(
        Vec3::new(0, 0, 204800),
        Vec3::new(-409600, 0, 0),
        Vec3::new(0, 512000, 0),
    );
    let side_wall_0 = quad(
        Vec3::new(409600, 0, 102400),
        Vec3::new(0, -512000, 0),
        Vec3::new(0, 0, 102400),
    );
    let side_wall_1 = quad(
        Vec3::new(-409600, 0, 102400),
        Vec3::new(0, 512000, 0),
        Vec3::new(0, 0, 102400),
    );
    let goal_shift = Vec3::new(0, -512000, 0);
    let goal_back = soccar_goal.translate(&goal_shift);
    let c0 = soccar_corner.duplicate();
    let c1 = soccar_corner.transform(&fx);
    let c2 = soccar_corner.transform(&fy);
    let c3 = soccar_corner.transform(&fxy);
    let g0 = goal_back.duplicate();
    let g1 = goal_back.transform(&fy);
    let a0 = soccar_ramps_0.duplicate();
    let a1 = soccar_ramps_0.transform(&fx);
    let b0 = soccar_ramps_1.duplicate();
    let b1 = soccar_ramps_1.transform(&fx);
    proof {
        let sh = Vec3i { x: 0, y: -512000, z: 0 };
        let cm = soccar_corner.models();
        let gm = shifted(soccar_goal.models(), sh);
        assert(fxy@ == spec_combine(spec_flip_x(), spec_flip_y()));
        assert(c0.models() =~= cm);
        lemma_models_transform(*soccar_corner, c1, spec_flip_x(), 1);
        assert(c1.models() =~= xformed(cm, spec_flip_x(), 1));
        lemma_models_transform(*soccar_corner, c2, spec_flip_y(), 1);
        assert(c2.models() =~= xformed(cm, spec_flip_y(), 1));
        lemma_models_transform(*soccar_corner, c3, fxy@, 1);
        assert(c3.models() =~= xformed(cm, spec_combine(spec_flip_x(), spec_flip_y()), 1));
        lemma_models_translate(*soccar_goal, goal_back, sh);
        assert(goal_back.models() =~= gm);
        assert(g0.models() =~= gm);
        lemma_models_transform(goal_back, g1, spec_flip_y(), 1);
        assert(g1.models() =~= xformed(gm, spec_flip_y(), 1));
        assert(a0.models() =~= soccar_ramps_0.models());
        lemma_models_transform(*soccar_ramps_0, a1, spec_flip_x(), 1);
        assert(a1.models() =~= xformed(soccar_ramps_0.models(), spec_flip_x(), 1));
        assert(b0.models() =~= soccar_ramps_1.models());
        lemma_models_transform(*soccar_ramps_1, b1, spec_flip_x(), 1);
        assert(b1.models() =~= xformed(soccar_ramps_1.models(), spec_flip_x(), 1));
    }
    let mut list: Vec<Mesh> = Vec::new();
    add_panel(&mut list, c0);
    add_panel(&mut list, c1);
    add_panel(&mut list, c2);
    add_panel(&mut list, c3);
    add_panel(&mut list, g0);
    add_panel(&mut list, g1);
    add_panel(&mut list, a0);
    add_panel(&mut list, a1);
    add_panel(&mut list, b0);
    add_panel(&mut list, b1);
    add_panel(&mut list, floor);
    add_panel(&mut list, ceiling);
    add_panel(&mut list, side_wall_0);
    add_panel(&mut list, side_wall_1);
    proof {
        let l = list@;
        reveal_with_fuel(concat_models, 16);
        reveal_with_fuel(total_id_len, 16);
        reveal_with_fuel(crate::mesh::total_vert_len, 16);
        assert(concat_models(l, 14) =~= spec_soccar_panels(
            soccar_corner,
            soccar_goal,
            soccar_ramps_0,
            soccar_ramps_1,
        ));
        assert(total_id_len(l, 14) == 4 * soccar_corner.ids@.len() + 2 * soccar_goal.ids@.len()
            + 2 * soccar_ramps_0.ids@.len() + 2 * soccar_ramps_1.ids@.len() + 24);
        assert(crate::mesh::total_vert_len(l, 14) == 4 * soccar_corner.vertices@.len() + 2
            * soccar_goal.vertices@.len() + 2 * soccar_ramps_0.vertices@.len() + 2
            * soccar_ramps_1.vertices@.len() + 48);
    }
    assemble(&list)
}

/// The triangles of the composed hoops field: mirrored corners, the net
/// and rim scaled by 9/10 and lifted, ramps, and the six shell panels.
pub open spec fn spec_hoops_panels(
    corner: &Mesh,
    net: &Mesh,
    rim: &Mesh,
    ramps_0: &Mesh,
    ramps_1: &Mesh,
) -> Seq<Tri3i> {
    let fx = spec_flip_x();
    let fy = spec_flip_y();
    let fxy = spec_combine(fx, fy);
    let dy = Vec3i { x: 0, y: 43166, z: 0 };
    let c = corner.models();
    let n = shifted(xformed(net.models(), spec_diag(9), 10), dy);
    let m = shifted(xformed(rim.models(), spec_diag(9), 10), dy);
    c + xformed(c, fx, 1) + xformed(c, fy, 1) + xformed(c, fxy, 1) + n + xformed(n, fy, 1) + m
        + xformed(m, fy, 1) + ramps_0.models() + xformed(ramps_0.models(), fx, 1)
        + ramps_1.models() + xformed(ramps_1.models(), fy, 1) + quad_models(
        Vec3i { x: 0, y: 0, z: 0 },
        Vec3i { x: 296600, y: 0, z: 0 },
        Vec3i { x: 0, y: 358100, z: 0 },
    ) + quad_models(
        Vec3i { x: 0, y: 0, z: 182000 },
        Vec3i { x: -296600, y: 0, z: 0 },
        Vec3i { x: 0, y: 358100, z: 0 },
    ) + quad_models(
        Vec3i { x: 296600, y: 0, z: 91000 },
        Vec3i { x: 0, y: -358100, z: 0 },
        Vec3i { x: 0, y: 0, z: 91000 },
    ) + quad_models(
        Vec3i { x: -296600, y: 0, z: 91000 },
        Vec3i { x: 0, y: 358100, z: 0 },
        Vec3i { x: 0, y: 0, z: 91000 },
    ) + quad_models(
        Vec3i { x: 0, y: 0, z: 102400 },
        Vec3i { x: 0, y: -512000, z: 0 },
        Vec3i { x: 0, y: 0, z: 102400 },
    ) + quad_models(
        Vec3i { x: 0, y: 0, z: 102400 },
        Vec3i { x: 0, y: 512000, z: 0 },
        Vec3i { x: 0, y: 0, z: 102400 },
    )
}

/// The hoops field: corners, net and rim scaled by 9/10 and lifted, ramps,
/// floor, ceiling, side and back walls.  Extents 2966 x 3581 x 1820.
#[verifier::rlimit(100)]
pub fn initialize_hoops(
    hoops_corner: &Mesh,
    hoops_net: &Mesh,
    hoops_rim: &Mesh,
    hoops_ramps_0: &Mesh,
    hoops_ramps_1: &Mesh,
) -> (r: Option<Bvh>)
    requires
        hoops_corner.wf(),
        hoops_net.wf(),
        hoops_rim.wf(),
        hoops_ramps_0.wf(),
        hoops_ramps_1.wf(),
    ensures
        r is Some ==> r->0.wf(),
        r is Some ==> r->0.models().to_multiset() == spec_hoops_panels(
            hoops_corner,
            hoops_net,
            hoops_rim,
            hoops_ramps_0,
            hoops_ramps_1,
        ).to_multiset(),
        r is Some ==> r->0.num_tris() == 4 * hoops_corner.num_tris() + 2 * hoops_net.num_tris()
            + 2 * hoops_rim.num_tris() + 2 * hoops_ramps_0.num_tris() + 2
            * hoops_ramps_1.num_tris() + 12,
        panel_sized(hoops_corner) && panel_sized(hoops_net) && panel_sized(hoops_rim)
            && panel_sized(hoops_ramps_0) && panel_sized(hoops_ramps_1) ==> r is Some,
{
    let fx = flip_x();
    let fy = flip_y();
    let fxy = fx.dot(&fy);
    proof {
        assert(crate::math::mat_bounded(fxy@, COORD_MAX as int));
    }
    let scale = Mat3::diagonal(9);
    let dy = Vec3::new(0, 43166, 0);
    let net_s = hoops_net.transform_scaled(&scale, 10);
    let net = net_s.translate(&dy);
    let rim_s = hoops_rim.transform_scaled(&scale, 10);
    let rim = rim_s.translate(&dy);
    let floor = quad(Vec3::zero(), Vec3::new(296600, 0, 0), Vec3::new(0, 358100, 0));
    let ceiling = quad(
        Vec3::new(0, 0, 182000),
        Vec3::new(-296600, 0, 0),
        Vec3::new(0, 358100, 0),
    );
    let side_wall_0 = quad(
        Vec3::new(296600, 0, 91000),
        Vec3::new(0, -358100, 0),
        Vec3::new(0, 0, 91000),
    );
    let side_wall_1 = quad(
        Vec3::new(-296600, 0, 91000),
        Vec3::new(0, 358100, 0),
        Vec3::new(0, 0, 91000),
    );
    let back_wall_0 = quad(
        Vec3::new(0, 0, 102400),
        Vec3::new(0, -512000, 0),
        Vec3::new(0, 0, 102400),
    );
    let back_wall_1 = quad(
        Vec3::new(0, 0, 102400),
        Vec3::new(0, 512000, 0),
        Vec3::new(0, 0, 102400),
    );
    let c0 = hoops_corner.duplicate();
    let c1 = hoops_corner.transform(&fx);
    let c2 = hoops_corner.transform(&fy);
    let c3 = hoops_corner.transform(&fxy);
    let n0 = net.duplicate();
    let n1 = net.transform(&fy);
    let m0 = rim.duplicate();
    let m1 = rim.transform(&fy);
    let a0 = hoops_ramps_0.duplicate();
    let a1 = hoops_ramps_0.transform(&fx);
    let b0 = hoops_ramps_1.duplicate();
    let b1 = hoops_ramps_1.transform(&fy);
    proof {
        let dyi = Vec3i { x: 0, y: 43166, z: 0 };
        let cm = hoops_corner.models();
        let nm = shifted(xformed(hoops_net.models(), spec_diag(9), 10), dyi);
        let rm = shifted(xformed(hoops_rim.models(), spec_diag(9), 10), dyi);
        assert(fxy@ == spec_combine(spec_flip_x(), spec_flip_y()));
        assert(scale@ == spec_diag(9));
        lemma_models_transform(*hoops_net, net_s, spec_diag(9), 10);
        assert(net_s.models() =~= xformed(hoops_net.models(), spec_diag(9), 10));
        lemma_models_translate(net_s, net, dyi);
        assert(net.models() =~= nm);
        lemma_models_transform(*hoops_rim, rim_s, spec_diag(9), 10);
        assert(rim_s.models() =~= xformed(hoops_rim.models(), spec_diag(9), 10));
        lemma_models_translate(rim_s, rim, dyi);
        assert(rim.models() =~= rm);
        assert(c0.models() =~= cm);
        lemma_models_transform(*hoops_corner, c1, spec_flip_x(), 1);
        assert(c1.models() =~= xformed(cm, spec_flip_x(), 1));
        lemma_models_transform(*hoops_corner, c2, spec_flip_y(), 1);
        assert(c2.models() =~= xformed(cm, spec_flip_y(), 1));
        lemma_models_transform(*hoops_corner, c3, fxy@, 1);
        assert(c3.models() =~= xformed(cm, spec_combine(spec_flip_x(), spec_flip_y()), 1));
        assert(n0.models() =~= nm);
        lemma_models_transform(net, n1, spec_flip_y(), 1);
        assert(n1.models() =~= xformed(nm, spec_flip_y(), 1));
        assert(m0.models() =~= rm);
        lemma_models_transform(rim, m1, spec_flip_y(), 1);
        assert(m1.models() =~= xformed(rm, spec_flip_y(), 1));
        assert(a0.models() =~= hoops_ramps_0.models());
        lemma_models_transform(*hoops_ramps_0, a1, spec_flip_x(), 1);
        assert(a1.models() =~= xformed(hoops_ramps_0.models(), spec_flip_x(), 1));
        assert(b0.models() =~= hoops_ramps_1.models());
        lemma_models_transform(*hoops_ramps_1, b1, spec_flip_y(), 1);
        assert(b1.models() =~= xformed(hoops_ramps_1.models(), spec_flip_y(), 1));
    }
    let mut list: Vec<Mesh> = Vec::new();
    add_panel(&mut list, c0);
    add_panel(&mut list, c1);
    add_panel(&mut list, c2);
    add_panel(&mut list, c3);
    add_panel(&mut list, n0);
    add_panel(&mut list, n1);
    add_panel(&mut list, m0);
    add_panel(&mut list, m1);
    add_panel(&mut list, a0);
    add_panel(&mut list, a1);
    add_panel(&mut list, b0);
    add_panel(&mut list, b1);
    add_panel(&mut list, floor);
    add_panel(&mut list, ceiling);
    add_panel(&mut list, side_wall_0);
    add_panel(&mut list, side_wall_1);
    add_panel(&mut list, back_wall_0);
    add_panel(&mut list, back_wall_1);
    proof {
        let l = list@;
        reveal_with_fuel(concat_models, 20);
        reveal_with_fuel(total_id_len, 20);
        reveal_with_fuel(crate::mesh::total_vert_len, 20);
        assert(concat_models(l, 18) =~= spec_hoops_panels(
            hoops_corner,
            hoops_net,
            hoops_rim,
            hoops_ramps_0,
            hoops_ramps_1,
        ));
        assert(total_id_len(l, 18) == 4 * hoops_corner.ids@.len() + 2 * hoops_net.ids@.len() + 2
            * hoops_rim.ids@.len() + 2 * hoops_ramps_0.ids@.len() + 2 * hoops_ramps_1.ids@.len()
            + 36);
        assert(crate::mesh::total_vert_len(l, 18) == 4 * hoops_corner.vertices@.len() + 2
            * hoops_net.vertices@.len() + 2 * hoops_rim.vertices@.len() + 2
            * hoops_ramps_0.vertices@.len() + 2 * hoops_ramps_1.vertices@.len() + 72);
    }
    assemble(&list)
}

/// Rotation by a twelfth of a turn about z, in thousandths.
pub open spec fn spec_dropshot_rot() -> Mat3i {
    Mat3i {
        x: Vec3i { x: 866, y: -500, z: 0 },
        y: Vec3i { x: 500, y: 866, z: 0 },
        z: Vec3i { x: 0, y: 0, z: 1000 },
    }
}

/// The triangles of the composed dropshot field: the rotated, scaled and
/// lowered platform, floor, ceiling, and the hexagonal ring of six walls.
pub open spec fn spec_dropshot_panels(dropshot: &Mesh) -> Seq<Tri3i> {
    let wz = Vec3i { x: 0, y: 0, z: 101000 };
    shifted(
        xformed(dropshot.models(), spec_combine(spec_dropshot_rot(), spec_diag(393)), 1000000),
        Vec3i { x: 0, y: 0, z: -20757 },
    ) + quad_models(
        Vec3i { x: 0, y: 0, z: 200 },
        Vec3i { x: 1000000, y: 0, z: 0 },
        Vec3i { x: 0, y: 700000, z: 0 },
    ) + quad_models(
        Vec3i { x: 0, y: 0, z: 202000 },
        Vec3i { x: -1000000, y: 0, z: 0 },
        Vec3i { x: 0, y: 700000, z: 0 },
    ) + quad_models(
        Vec3i { x: 0, y: 459166, z: 129564 },
        Vec3i { x: 500000, y: 0, z: 0 },
        wz,
    ) + quad_models(
        Vec3i { x: -397638, y: 229583, z: 129564 },
        Vec3i { x: 250000, y: 433013, z: 0 },
        wz,
    ) + quad_models(
        Vec3i { x: -397638, y: -229583, z: 129564 },
        Vec3i { x: -250000, y: 433013, z: 0 },
        wz,
    ) + quad_models(
        Vec3i { x: 0, y: -459166, z: 129564 },
        Vec3i { x: -500000, y: 0, z: 0 },
        wz,
    ) + quad_models(
        Vec3i { x: 397638, y: -229583, z: 129564 },
        Vec3i { x: -250000, y: -433013, z: 0 },
        wz,
    ) + quad_models(
        Vec3i { x: 397638, y: 229583, z: 129564 },
        Vec3i { x: 250000, y: -433013, z: 0 },
        wz,
    )
}

/// The dropshot field: the platform mesh rotated a twelfth of a turn and
/// scaled by 393/1000, floor, ceiling, and a hexagonal ring of six walls.
#[verifier::rlimit(100)]
pub fn initialize_dropshot(dropshot: &Mesh) -> (r: Option<Bvh>)
    requires
        dropshot.wf(),
    ensures
        r is Some ==> r->0.wf(),
        r is Some ==> r->0.models().to_multiset() == spec_dropshot_panels(dropshot).to_multiset(),
        r is Some ==> r->0.num_tris() == dropshot.num_tris() + 16,
        panel_sized(dropshot) ==> r is Some,
{
    // Rotation by a twelfth of a turn about z, in thousandths, combined
    // with the 393/1000 scale: one transform with denominator 1000 * 1000.
    let rot = Mat3 {
        x: Vec3 { x: 866, y: -500, z: 0 },
        y: Vec3 { x: 500, y: 866, z: 0 },
        z: Vec3 { x: 0, y: 0, z: 1000 },
    };
    let scale = Mat3::diagonal(393);
    let m = rot.dot(&scale);
    proof {
        assert(crate::math::mat_bounded(m@, COORD_MAX as int));
    }
    let dz = Vec3::new(0, 0, -20757);
    let plat_s = dropshot.transform_scaled(&m, 1000000);
    let platform = plat_s.translate(&dz);
    let floor = quad(Vec3::new(0, 0, 200), Vec3::new(1000000, 0, 0), Vec3::new(0, 700000, 0));
    let ceiling = quad(
        Vec3::new(0, 0, 202000),
        Vec3::new(-1000000, 0, 0),
        Vec3::new(0, 700000, 0),
    );
    // The six wall centers and in-plane axes: the ring of radius 4591.66
    // units advanced a sixth of a turn at a time.
    let wz = Vec3::new(0, 0, 101000);
    let wall_0 = quad(Vec3::new(0, 459166, 129564), Vec3::new(500000, 0, 0), wz);
    let wall_1 = quad(Vec3::new(-397638, 229583, 129564), Vec3::new(250000, 433013, 0), wz);
    let wall_2 = quad(Vec3::new(-397638, -229583, 129564), Vec3::new(-250000, 433013, 0), wz);
    let wall_3 = quad(Vec3::new(0, -459166, 129564), Vec3::new(-500000, 0, 0), wz);
    let wall_4 = quad(Vec3::new(397638, -229583, 129564), Vec3::new(-250000, -433013, 0), wz);
    let wall_5 = quad(Vec3::new(397638, 229583, 129564), Vec3::new(250000, -433013, 0), wz);
    proof {
        let dzi = Vec3i { x: 0, y: 0, z: -20757 };
        assert(m@ == spec_combine(spec_dropshot_rot(), spec_diag(393)));
        lemma_models_transform(*dropshot, plat_s, m@, 1000000);
        assert(plat_s.models() =~= xformed(
            dropshot.models(),
            spec_combine(spec_dropshot_rot(), spec_diag(393)),
            1000000,
        ));
        lemma_models_translate(plat_s, platform, dzi);
        assert(platform.models() =~= shifted(
            xformed(dropshot.models(), spec_combine(spec_dropshot_rot(), spec_diag(393)), 1000000),
            dzi,
        ));
    }
    let mut list: Vec<Mesh> = Vec::new();
    add_panel(&mut list, platform);
    add_panel(&mut list, floor);
    add_panel(&mut list, ceiling);
    add_panel(&mut list, wall_0);
    add_panel(&mut list, wall_1);
    add_panel(&mut list, wall_2);
    add_panel(&mut list, wall_3);
    add_panel(&mut list, wall_4);
    add_panel(&mut list, wall_5);
    proof {
        let l = list@;
        reveal_with_fuel(concat_models, 11);
        reveal_with_fuel(total_id_len, 11);
        reveal_with_fuel(crate::mesh::total_vert_len, 11);
        assert(concat_models(l, 9) =~= spec_dropshot_panels(dropshot));
        assert(total_id_len(l, 9) == dropshot.ids@.len() + 48);
        assert(crate::mesh::total_vert_len(l, 9) == dropshot.vertices@.len() + 96);
    }
    assemble(&list)
}

/// The raw panel meshes of the throwback field.
pub struct InitializeThrowbackParams<'a> {
    pub back_ramps_lower: &'a Mesh,
    pub back_ramps_upper: &'a Mesh,
    pub corner_ramps_lower: &'a Mesh,
    pub corner_ramps_upper: &'a Mesh,
    pub corner_wall_0: &'a Mesh,
    pub corner_wall_1: &'a Mesh,
    pub corner_wall_2: &'a Mesh,
    pub goal: &'a Mesh,
    pub side_ramps_lower: &'a Mesh,
    pub side_ramps_upper: &'a Mesh,
}

impl<'a> InitializeThrowbackParams<'a> {
    pub open spec fn wf(&self) -> bool {
        &&& self.back_ramps_lower.wf()
        &&& self.back_ramps_upper.wf()
        &&& self.corner_ramps_lower.wf()
        &&& self.corner_ramps_upper.wf()
        &&& self.corner_wall_0.wf()
        &&& self.corner_wall_1.wf()
        &&& self.corner_wall_2.wf()
        &&& self.goal.wf()
        &&& self.side_ramps_lower.wf()
        &&& self.side_ramps_upper.wf()
    }
}

/// The throwback field: every panel scaled up by 100, mirrored into all
/// four quadrants, plus floor, ceiling, side and back walls.
/// The triangles of the composed throwback field: every panel scaled by
/// 100, mirrored into its quadrants, plus the six shell panels.
pub open spec fn spec_throwback_panels(
    back_ramps_lower: &Mesh,
    back_ramps_upper: &Mesh,
    corner_ramps_lower: &Mesh,
    corner_ramps_upper: &Mesh,
    corner_wall_0: &Mesh,
    corner_wall_1: &Mesh,
    corner_wall_2: &Mesh,
    goal: &Mesh,
    side_ramps_lower: &Mesh,
    side_ramps_upper: &Mesh,
) -> Seq<Tri3i> {
    let fx = spec_flip_x();
    let fy = spec_flip_y();
    let s100 = spec_diag(100);
    let crlm = xformed(corner_ramps_lower.models(), s100, 1);
    let crum = xformed(corner_ramps_upper.models(), s100, 1);
    let gm = xformed(goal.models(), s100, 1);
    let srlm = xformed(side_ramps_lower.models(), s100, 1);
    let srum = xformed(side_ramps_upper.models(), s100, 1);
    let brlm = xformed(back_ramps_lower.models(), s100, 1);
    let brum = xformed(back_ramps_upper.models(), s100, 1);
    let cw0m = xformed(corner_wall_0.models(), s100, 1);
    let cw1m = xformed(corner_wall_1.models(), s100, 1);
    let cw2m = xformed(corner_wall_2.models(), s100, 1);
    crlm + xformed(crlm, fx, 1) + xformed(crlm, fy, 1) + xformed(xformed(crlm, fy, 1), fx, 1) + crum + xformed(crum, fx, 1) + xformed(crum, fy, 1) + xformed(xformed(crum, fy, 1), fx, 1) + gm + xformed(gm, fy, 1) + srlm + xformed(srlm, fx, 1) + srum + xformed(srum, fx, 1) + brlm + xformed(brlm, fy, 1) + brum + xformed(brum, fy, 1) + cw0m + xformed(cw0m, fx, 1) + xformed(cw0m, fy, 1) + xformed(xformed(cw0m, fy, 1), fx, 1) + cw1m + xformed(cw1m, fx, 1) + xformed(cw1m, fy, 1) + xformed(xformed(cw1m, fy, 1), fx, 1) + cw2m + xformed(cw2m, fx, 1) + xformed(cw2m, fy, 1) + xformed(xformed(cw2m, fy, 1), fx, 1) + quad_models(Vec3i { x: 0, y: 0, z: 0 }, Vec3i { x: 409660, y: 0, z: 0 }, Vec3i { x: 0, y: 691000, z: 0 }) + quad_models(Vec3i { x: 0, y: 0, z: 204800 }, Vec3i { x: -409660, y: 0, z: 0 }, Vec3i { x: 0, y: 691000, z: 0 }) + quad_models(Vec3i { x: 409660, y: 0, z: 102400 }, Vec3i { x: 0, y: -691000, z: 0 }, Vec3i { x: 0, y: 0, z: 102400 }) + quad_models(Vec3i { x: -409660, y: 0, z: 102400 }, Vec3i { x: 0, y: 691000, z: 0 }, Vec3i { x: 0, y: 0, z: 102400 }) + quad_models(Vec3i { x: 0, y: 691000, z: 102400 }, Vec3i { x: 409600, y: 0, z: 0 }, Vec3i { x: 0, y: 0, z: 102400 }) + quad_models(Vec3i { x: 0, y: -691000, z: 102400 }, Vec3i { x: -409600, y: 0, z: 0 }, Vec3i { x: 0, y: 0, z: 102400 })
}

/// The throwback field: every panel scaled up by 100, mirrored into all
/// four quadrants, plus floor, ceiling, side and back walls.
#[verifier::rlimit(100)]
pub fn initialize_throwback(params: InitializeThrowbackParams<'_>) -> (r: Option<Bvh>)
    requires
        params.wf(),
    ensures
        r is Some ==> r->0.wf(),
        r is Some ==> r->0.models().to_multiset() == spec_throwback_panels(
            params.back_ramps_lower,
            params.back_ramps_upper,
            params.corner_ramps_lower,
            params.corner_ramps_upper,
            params.corner_wall_0,
            params.corner_wall_1,
            params.corner_wall_2,
            params.goal,
            params.side_ramps_lower,
            params.side_ramps_upper,
        ).to_multiset(),
        r is Some ==> r->0.num_tris() == 4 * (params.corner_ramps_lower.num_tris()
            + params.corner_ramps_upper.num_tris() + params.corner_wall_0.num_tris()
            + params.corner_wall_1.num_tris() + params.corner_wall_2.num_tris()) + 2 * (
        params.goal.num_tris() + params.side_ramps_lower.num_tris()
            + params.side_ramps_upper.num_tris() + params.back_ramps_lower.num_tris()
            + params.back_ramps_upper.num_tris()) + 12,
        panel_sized(params.back_ramps_lower) && panel_sized(params.back_ramps_upper)
            && panel_sized(params.corner_ramps_lower) && panel_sized(
            params.corner_ramps_upper,
        ) && panel_sized(params.corner_wall_0) && panel_sized(params.corner_wall_1)
            && panel_sized(params.corner_wall_2) && panel_sized(params.goal)
            && panel_sized(params.side_ramps_lower) && panel_sized(params.side_ramps_upper)
            ==> r is Some,
{
    let fx = flip_x();
    let fy = flip_y();
    let scale = Mat3::diagonal(100);
    let floor = quad(Vec3::zero(), Vec3::new(409660, 0, 0), Vec3::new(0, 691000, 0));
    let ceiling = quad(
        Vec3::new(0, 0, 204800),
        Vec3::new(-409660, 0, 0),
        Vec3::new(0, 691000, 0),
    );
    let side_wall_0 = quad(
        Vec3::new(409660, 0, 102400),
        Vec3::new(0, -691000, 0),
        Vec3::new(0, 0, 102400),
    );
    let side_wall_1 = quad(
        Vec3::new(-409660, 0, 102400),
        Vec3::new(0, 691000, 0),
        Vec3::new(0, 0, 102400),
    );
    let back_wall_0 = quad(
        Vec3::new(0, 691000, 102400),
        Vec3::new(409600, 0, 0),
        Vec3::new(0, 0, 102400),
    );
    let back_wall_1 = quad(
        Vec3::new(0, -691000, 102400),
        Vec3::new(-409600, 0, 0),
        Vec3::new(0, 0, 102400),
    );
    let crl_s = params.corner_ramps_lower.transform(&scale);
    let cru_s = params.corner_ramps_upper.transform(&scale);
    let g_s = params.goal.transform(&scale);
    let srl_s = params.side_ramps_lower.transform(&scale);
    let sru_s = params.side_ramps_upper.transform(&scale);
    let brl_s = params.back_ramps_lower.transform(&scale);
    let bru_s = params.back_ramps_upper.transform(&scale);
    let cw0_s = params.corner_wall_0.transform(&scale);
    let cw1_s = params.corner_wall_1.transform(&scale);
    let cw2_s = params.corner_wall_2.transform(&scale);
    let crl0 = crl_s.duplicate();
    let crl1 = crl_s.transform(&fx);
    let crl2 = crl_s.transform(&fy);
    let crl3 = crl2.transform(&fx);
    let cru0 = cru_s.duplicate();
    let cru1 = cru_s.transform(&fx);
    let cru2 = cru_s.transform(&fy);
    let cru3 = cru2.transform(&fx);
    let g0 = g_s.duplicate();
    let g1 = g_s.transform(&fy);
    let srl0 = srl_s.duplicate();
    let srl1 = srl_s.transform(&fx);
    let sru0 = sru_s.duplicate();
    let sru1 = sru_s.transform(&fx);
    let brl0 = brl_s.duplicate();
    let brl1 = brl_s.transform(&fy);
    let bru0 = bru_s.duplicate();
    let bru1 = bru_s.transform(&fy);
    let cw00 = cw0_s.duplicate();
    let cw01 = cw0_s.transform(&fx);
    let cw02 = cw0_s.transform(&fy);
    let cw03 = cw02.transform(&fx);
    let cw10 = cw1_s.duplicate();
    let cw11 = cw1_s.transform(&fx);
    let cw12 = cw1_s.transform(&fy);
    let cw13 = cw12.transform(&fx);
    let cw20 = cw2_s.duplicate();
    let cw21 = cw2_s.transform(&fx);
    let cw22 = cw2_s.transform(&fy);
    let cw23 = cw22.transform(&fx);
    proof {
        let s100 = spec_diag(100);
        lemma_models_transform(*params.corner_ramps_lower, crl_s, spec_diag(100), 1);
        assert(crl_s.models() =~= xformed(params.corner_ramps_lower.models(), s100, 1));
        assert(crl0.models() =~= crl_s.models());
        lemma_models_transform(crl_s, crl1, spec_flip_x(), 1);
        assert(crl1.models() =~= xformed(crl_s.models(), spec_flip_x(), 1));
        lemma_models_transform(crl_s, crl2, spec_flip_y(), 1);
        assert(crl2.models() =~= xformed(crl_s.models(), spec_flip_y(), 1));
        lemma_models_transform(crl2, crl3, spec_flip_x(), 1);
        assert(crl3.models() =~= xformed(xformed(crl_s.models(), spec_flip_y(), 1), spec_flip_x(), 1));
        lemma_models_transform(*params.corner_ramps_upper, cru_s, spec_diag(100), 1);
        assert(cru_s.models() =~= xformed(params.corner_ramps_upper.models(), s100, 1));
        assert(cru0.models() =~= cru_s.models());
        lemma_models_transform(cru_s, cru1, spec_flip_x(), 1);
        assert(cru1.models() =~= xformed(cru_s.models(), spec_flip_x(), 1));
        lemma_models_transform(cru_s, cru2, spec_flip_y(), 1);
        assert(cru2.models() =~= xformed(cru_s.models(), spec_flip_y(), 1));
        lemma_models_transform(cru2, cru3, spec_flip_x(), 1);
        assert(cru3.models() =~= xformed(xformed(cru_s.models(), spec_flip_y(), 1), spec_flip_x(), 1));
        lemma_models_transform(*params.goal, g_s, spec_diag(100), 1);
        assert(g_s.models() =~= xformed(params.goal.models(), s100, 1));
        assert(g0.models() =~= g_s.models());
        lemma_models_transform(g_s, g1, spec_flip_y(), 1);
        assert(g1.models() =~= xformed(g_s.models(), spec_flip_y(), 1));
        lemma_models_transform(*params.side_ramps_lower, srl_s, spec_diag(100), 1);
        assert(srl_s.models() =~= xformed(params.side_ramps_lower.models(), s100, 1));
        assert(srl0.models() =~= srl_s.models());
        lemma_models_transform(srl_s, srl1, spec_flip_x(), 1);
        assert(srl1.models() =~= xformed(srl_s.models(), spec_flip_x(), 1));
        lemma_models_transform(*params.side_ramps_upper, sru_s, spec_diag(100), 1);
        assert(sru_s.models() =~= xformed(params.side_ramps_upper.models(), s100, 1));
        assert(sru0.models() =~= sru_s.models());
        lemma_models_transform(sru_s, sru1, spec_flip_x(), 1);
        assert(sru1.models() =~= xformed(sru_s.models(), spec_flip_x(), 1));
        lemma_models_transform(*params.back_ramps_lower, brl_s, spec_diag(100), 1);
        assert(brl_s.models() =~= xformed(params.back_ramps_lower.models(), s100, 1));
        assert(brl0.models() =~= brl_s.models());
        lemma_models_transform(brl_s, brl1, spec_flip_y(), 1);
        assert(brl1.models() =~= xformed(brl_s.models(), spec_flip_y(), 1));
        lemma_models_transform(*params.back_ramps_upper, bru_s, spec_diag(100), 1);
        assert(bru_s.models() =~= xformed(params.back_ramps_upper.models(), s100, 1));
        assert(bru0.models() =~= bru_s.models());
        lemma_models_transform(bru_s, bru1, spec_flip_y(), 1);
        assert(bru1.models() =~= xformed(bru_s.models(), spec_flip_y(), 1));
        lemma_models_transform(*params.corner_wall_0, cw0_s, spec_diag(100), 1);
        assert(cw0_s.models() =~= xformed(params.corner_wall_0.models(), s100, 1));
        assert(cw00.models() =~= cw0_s.models());
        lemma_models_transform(cw0_s, cw01, spec_flip_x(), 1);
        assert(cw01.models() =~= xformed(cw0_s.models(), spec_flip_x(), 1));
        lemma_models_transform(cw0_s, cw02, spec_flip_y(), 1);
        assert(cw02.models() =~= xformed(cw0_s.models(), spec_flip_y(), 1));
        lemma_models_transform(cw02, cw03, spec_flip_x(), 1);
        assert(cw03.models() =~= xformed(xformed(cw0_s.models(), spec_flip_y(), 1), spec_flip_x(), 1));
        lemma_models_transform(*params.corner_wall_1, cw1_s, spec_diag(100), 1);
        assert(cw1_s.models() =~= xformed(params.corner_wall_1.models(), s100, 1));
        assert(cw10.models() =~= cw1_s.models());
        lemma_models_transform(cw1_s, cw11, spec_flip_x(), 1);
        assert(cw11.models() =~= xformed(cw1_s.models(), spec_flip_x(), 1));
        lemma_models_transform(cw1_s, cw12, spec_flip_y(), 1);
        assert(cw12.models() =~= xformed(cw1_s.models(), spec_flip_y(), 1));
        lemma_models_transform(cw12, cw13, spec_flip_x(), 1);
        assert(cw13.models() =~= xformed(xformed(cw1_s.models(), spec_flip_y(), 1), spec_flip_x(), 1));
        lemma_models_transform(*params.corner_wall_2, cw2_s, spec_diag(100), 1);
        assert(cw2_s.models() =~= xformed(params.corner_wall_2.models(), s100, 1));
        assert(cw20.models() =~= cw2_s.models());
        lemma_models_transform(cw2_s, cw21, spec_flip_x(), 1);
        assert(cw21.models() =~= xformed(cw2_s.models(), spec_flip_x(), 1));
        lemma_models_transform(cw2_s, cw22, spec_flip_y(), 1);
        assert(cw22.models() =~= xformed(cw2_s.models(), spec_flip_y(), 1));
        lemma_models_transform(cw22, cw23, spec_flip_x(), 1);
        assert(cw23.models() =~= xformed(xformed(cw2_s.models(), spec_flip_y(), 1), spec_flip_x(), 1));
    }
    let mut list: Vec<Mesh> = Vec::new();
    add_panel(&mut list, crl0);
    add_panel(&mut list, crl1);
    add_panel(&mut list, crl2);
    add_panel(&mut list, crl3);
    add_panel(&mut list, cru0);
    add_panel(&mut list, cru1);
    add_panel(&mut list, cru2);
    add_panel(&mut list, cru3);
    add_panel(&mut list, g0);
    add_panel(&mut list, g1);
    add_panel(&mut list, srl0);
    add_panel(&mut list, srl1);
    add_panel(&mut list, sru0);
    add_panel(&mut list, sru1);
    add_panel(&mut list, brl0);
    add_panel(&mut list, brl1);
    add_panel(&mut list, bru0);
    add_panel(&mut list, bru1);
    add_panel(&mut list, cw00);
    add_panel(&mut list, cw01);
    add_panel(&mut list, cw02);
    add_panel(&mut list, cw03);
    add_panel(&mut list, cw10);
    add_panel(&mut list, cw11);
    add_panel(&mut list, cw12);
    add_panel(&mut list, cw13);
    add_panel(&mut list, cw20);
    add_panel(&mut list, cw21);
    add_panel(&mut list, cw22);
    add_panel(&mut list, cw23);
    add_panel(&mut list, floor);
    add_panel(&mut list, ceiling);
    add_panel(&mut list, side_wall_0);
    add_panel(&mut list, side_wall_1);
    add_panel(&mut list, back_wall_0);
    add_panel(&mut list, back_wall_1);
    proof {
        let l = list@;
        reveal_with_fuel(concat_models, 38);
        reveal_with_fuel(total_id_len, 38);
        reveal_with_fuel(crate::mesh::total_vert_len, 38);
        assert(concat_models(l, 36) =~= spec_throwback_panels(
            params.back_ramps_lower,
            params.back_ramps_upper,
            params.corner_ramps_lower,
            params.corner_ramps_upper,
            params.corner_wall_0,
            params.corner_wall_1,
            params.corner_wall_2,
            params.goal,
            params.side_ramps_lower,
            params.side_ramps_upper,
        ));
        assert(total_id_len(l, 36) == 4 * (params.corner_ramps_lower.ids@.len()
            + params.corner_ramps_upper.ids@.len() + params.corner_wall_0.ids@.len()
            + params.corner_wall_1.ids@.len() + params.corner_wall_2.ids@.len()) + 2 * (
        params.goal.ids@.len() + params.side_ramps_lower.ids@.len()
            + params.side_ramps_upper.ids@.len() + params.back_ramps_lower.ids@.len()
            + params.back_ramps_upper.ids@.len()) + 36);
        assert(crate::mesh::total_vert_len(l, 36) == 4 * (params.corner_ramps_lower.vertices@.len()
            + params.corner_ramps_upper.vertices@.len() + params.corner_wall_0.vertices@.len()
            + params.corner_wall_1.vertices@.len() + params.corner_wall_2.vertices@.len()) + 2 * (
        params.goal.vertices@.len() + params.side_ramps_lower.vertices@.len()
            + params.side_ramps_upper.vertices@.len() + params.back_ramps_lower.vertices@.len()
            + params.back_ramps_upper.vertices@.len()) + 72);
    }
    assemble(&list)
}

} // verus!
