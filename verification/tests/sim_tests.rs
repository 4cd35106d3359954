use ballsim::bvh::Bvh;
use ballsim::field::quad;
use ballsim::math::Vec3;
use ballsim::sim::get_prediction;
use ballsim::sim::get_prediction_for_duration;
use ballsim::sim::BallState;

const RADIUS: i64 = 9125;

fn floor_arena() -> Bvh {
    // A broad floor at z = 0.
    let floor = quad(
        Vec3 { x: 0, y: 0, z: 0 },
        Vec3 { x: 409600, y: 0, z: 0 },
        Vec3 { x: 0, y: 512000, z: 0 },
    );
    Bvh::build(&floor.to_triangle_list()).unwrap()
}

fn ball_at(pos: Vec3, vel: Vec3) -> BallState {
    BallState::new(pos, vel, Vec3 { x: 0, y: 0, z: 0 }, RADIUS).unwrap()
}

#[test]
fn resting_ball_stays_settled() {
    // A ball at rest on the floor keeps a bounded bounce-decay: it never
    // sinks into the floor and never gains height.
    let arena = floor_arena();
    let mut s = ball_at(Vec3 { x: 3700, y: -21000, z: RADIUS }, Vec3 { x: 0, y: 0, z: 0 });
    for _ in 0..300 {
        s = s.step(&arena);
        assert!(s.pos.z >= RADIUS - 20, "ball sank into the floor: {}", s.pos.z);
        assert!(s.pos.z <= RADIUS + 20, "ball drifted off the floor: {}", s.pos.z);
    }
}

#[test]
fn fast_ball_does_not_tunnel() {
    // One step moves the ball farther than its radius; the swept query
    // must still catch the wall in between.
    let wall = quad(
        Vec3 { x: 100000, y: 0, z: 0 },
        Vec3 { x: 0, y: 200000, z: 0 },
        Vec3 { x: 0, y: 0, z: 200000 },
    );
    let arena = Bvh::build(&wall.to_triangle_list()).unwrap();
    let s0 = ball_at(Vec3 { x: 95000, y: 13, z: 37 }, Vec3 { x: 1_200_000, y: 0, z: 0 });
    // The displacement in one tick exceeds the radius.
    assert!(1_200_000 / 120 > RADIUS);
    let s1 = s0.step(&arena);
    assert!(s1.pos.x < 100000, "ball passed through the wall: {}", s1.pos.x);
    assert!(s1.vel.x < 0, "ball was not reflected: {}", s1.vel.x);
}

#[test]
fn predictions_are_deterministic() {
    let arena = floor_arena();
    let s = ball_at(Vec3 { x: 0, y: 0, z: 150000 }, Vec3 { x: 20000, y: -10000, z: 0 });
    let a = get_prediction(&arena, &s);
    let b = get_prediction(&arena, &s);
    assert_eq!(a, b);
}

#[test]
fn prediction_length_follows_duration() {
    let arena = floor_arena();
    let s = ball_at(Vec3 { x: 0, y: 0, z: 150000 }, Vec3 { x: 0, y: 0, z: 0 });
    assert_eq!(get_prediction_for_duration(&arena, &s, 1000).len(), 120);
    assert_eq!(get_prediction_for_duration(&arena, &s, 0).len(), 0);
    assert_eq!(get_prediction(&arena, &s).len(), 720);
}

#[test]
fn drop_bounces_with_decay() {
    // Ball at 1900 units above the floor with zero velocity: the height
    // decreases monotonically until first contact, and the bounce that
    // follows peaks well below the starting height.
    let arena = floor_arena();
    let s0 = ball_at(Vec3 { x: 0, y: 0, z: 190000 }, Vec3 { x: 0, y: 0, z: 0 });
    let states = get_prediction_for_duration(&arena, &s0, 10000);
    assert_eq!(states.len(), 1200);
    let zs: Vec<i64> = states.iter().map(|s| s.pos.z).collect();
    // Find the first tick where the height stops decreasing.
    let mut contact = None;
    for i in 0..zs.len() - 1 {
        if zs[i + 1] >= zs[i] {
            contact = Some(i);
            break;
        }
    }
    let c = contact.expect("the ball never reached the floor");
    for i in 0..c {
        assert!(zs[i + 1] < zs[i], "height rose before contact at tick {}", i);
    }
    assert!(zs[c] < 190000);
    let peak_after = zs[c..].iter().max().unwrap();
    assert!(
        *peak_after < 190000 - 50000,
        "bounce peak {} too close to the drop height",
        peak_after
    );
}

#[test]
fn ball_state_rejects_out_of_range() {
    assert!(BallState::new(
        Vec3 { x: 0, y: 0, z: 5_000_000 },
        Vec3 { x: 0, y: 0, z: 0 },
        Vec3 { x: 0, y: 0, z: 0 },
        RADIUS,
    )
    .is_none());
    assert!(BallState::new(
        Vec3 { x: 0, y: 0, z: 0 },
        Vec3 { x: 0, y: 0, z: 0 },
        Vec3 { x: 0, y: 0, z: 0 },
        -1,
    )
    .is_none());
}
