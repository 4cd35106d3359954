use ballsim::field::initialize_dropshot;
use ballsim::field::initialize_hoops;
use ballsim::field::initialize_soccar;
use ballsim::field::initialize_throwback;
use ballsim::field::quad;
use ballsim::field::InitializeThrowbackParams;
use ballsim::math::Vec3;
use ballsim::mesh::Mesh;
use ballsim::sim::get_prediction_for_duration;
use ballsim::sim::BallState;

fn panel() -> Mesh {
    quad(
        Vec3 { x: 0, y: 0, z: 50000 },
        Vec3 { x: 10000, y: 0, z: 0 },
        Vec3 { x: 0, y: 10000, z: 0 },
    )
}

#[test]
fn quad_layout() {
    let m = quad(
        Vec3 { x: 1, y: 2, z: 3 },
        Vec3 { x: 10, y: 0, z: 0 },
        Vec3 { x: 0, y: 20, z: 0 },
    );
    assert_eq!(m.ids, vec![0, 1, 3, 1, 2, 3]);
    assert_eq!(
        m.vertices,
        vec![11, 22, 3, -9, 22, 3, -9, -18, 3, 11, -18, 3],
    );
}

#[test]
fn soccar_arena_builds() {
    let p = panel();
    let bvh = initialize_soccar(&p, &p, &p, &p).unwrap();
    // Four corners, two goals, four ramps (two triangles each), four
    // panels of the shell (two triangles each).
    assert_eq!(bvh.tris.len(), 2 * 14);
}

#[test]
fn hoops_arena_builds() {
    let p = panel();
    let bvh = initialize_hoops(&p, &p, &p, &p, &p).unwrap();
    assert_eq!(bvh.tris.len(), 2 * 18);
}

#[test]
fn dropshot_arena_builds() {
    let p = panel();
    let bvh = initialize_dropshot(&p).unwrap();
    assert_eq!(bvh.tris.len(), 2 * 9);
}

#[test]
fn throwback_arena_builds() {
    let p = panel();
    let params = InitializeThrowbackParams {
        back_ramps_lower: &p,
        back_ramps_upper: &p,
        corner_ramps_lower: &p,
        corner_ramps_upper: &p,
        corner_wall_0: &p,
        corner_wall_1: &p,
        corner_wall_2: &p,
        goal: &p,
        side_ramps_lower: &p,
        side_ramps_upper: &p,
    };
    let bvh = initialize_throwback(params).unwrap();
    assert_eq!(bvh.tris.len(), 2 * 36);
}

#[test]
fn ball_settles_inside_soccar_arena() {
    // End to end: a ball dropped inside the assembled standard arena never
    // leaves it downward.
    let p = panel();
    let bvh = initialize_soccar(&p, &p, &p, &p).unwrap();
    let s = BallState::new(
        Vec3 { x: 0, y: 0, z: 150000 },
        Vec3 { x: 0, y: 0, z: 0 },
        Vec3 { x: 0, y: 0, z: 0 },
        9125,
    )
    .unwrap();
    let states = get_prediction_for_duration(&bvh, &s, 6000);
    for st in &states {
        assert!(st.pos.z > 0, "ball fell through the arena floor");
    }
}
