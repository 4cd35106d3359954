use ballsim::math::Mat3;
use ballsim::math::Vec3;
use ballsim::math::isqrt_u128;

fn mat(rows: [[i64; 3]; 3]) -> Mat3 {
    Mat3 {
        x: Vec3 { x: rows[0][0], y: rows[0][1], z: rows[0][2] },
        y: Vec3 { x: rows[1][0], y: rows[1][1], z: rows[1][2] },
        z: Vec3 { x: rows[2][0], y: rows[2][1], z: rows[2][2] },
    }
}

#[test]
fn mat3_dot() {
    let a = mat([[-1, 2, 3], [4, 5, 6], [7, 8, 9]]);
    let b = mat([[9, 8, 7], [6, -5, 4], [3, 2, 1]]);
    let c = mat([[12, -12, 4], [84, 19, 54], [138, 34, 90]]);
    assert_eq!(a.dot(&b), c);
}

#[test]
fn apply_combine_matches_sequential_application() {
    let a = mat([[-1, 2, 3], [4, 5, 6], [7, 8, 9]]);
    let b = mat([[9, 8, 7], [6, -5, 4], [3, 2, 1]]);
    let v = Vec3 { x: 10, y: -7, z: 3 };
    let combined = a.dot(&b);
    assert_eq!(combined.apply(&v), a.apply(&b.apply(&v)));
}

#[test]
fn vector_ops() {
    let u = Vec3 { x: 1, y: 2, z: 3 };
    let w = Vec3 { x: 4, y: -5, z: 6 };
    assert_eq!(u.add(&w), Vec3 { x: 5, y: -3, z: 9 });
    assert_eq!(u.sub(&w), Vec3 { x: -3, y: 7, z: -3 });
    assert_eq!(u.dot(&w), 1 * 4 + 2 * -5 + 3 * 6);
    assert_eq!(u.cross(&w), Vec3 { x: 27, y: 6, z: -13 });
}

#[test]
fn integer_square_root() {
    assert_eq!(isqrt_u128(0), 0);
    assert_eq!(isqrt_u128(1), 1);
    assert_eq!(isqrt_u128(3), 1);
    assert_eq!(isqrt_u128(4), 2);
    assert_eq!(isqrt_u128(9124 * 9124 + 1), 9124);
    assert_eq!(isqrt_u128(u128::from(u64::MAX)) as u64, 4294967295);
}
