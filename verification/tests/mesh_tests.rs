use ballsim::field::quad;
use ballsim::math::Mat3;
use ballsim::math::Vec3;
use ballsim::mesh::Mesh;
use ballsim::mesh::Triangle;

fn flat_coords(t: &Triangle) -> [i64; 9] {
    [t.a.x, t.a.y, t.a.z, t.b.x, t.b.y, t.b.z, t.c.x, t.c.y, t.c.z]
}

#[test]
fn merge_preserves_topology() {
    // The triangles of the merged mesh are those of the first mesh followed
    // by those of the second, with all coordinates unchanged.
    let m1 = quad(Vec3 { x: 0, y: 0, z: 0 }, Vec3 { x: 100, y: 0, z: 0 }, Vec3 {
        x: 0,
        y: 200,
        z: 0,
    });
    let m2 = quad(Vec3 { x: 5, y: 6, z: 7 }, Vec3 { x: 10, y: 0, z: 0 }, Vec3 {
        x: 0,
        y: 0,
        z: 20,
    });
    let t1 = m1.to_triangle_list();
    let t2 = m2.to_triangle_list();
    let mut list: Vec<Mesh> = Vec::new();
    list.push(m1);
    list.push(m2);
    let merged = Mesh::merge(&list);
    let tm = merged.to_triangle_list();
    assert_eq!(tm.len(), t1.len() + t2.len());
    for (i, t) in t1.iter().enumerate() {
        assert_eq!(flat_coords(&tm[i]), flat_coords(t));
    }
    for (i, t) in t2.iter().enumerate() {
        assert_eq!(flat_coords(&tm[t1.len() + i]), flat_coords(t));
    }
}

#[test]
fn transform_mirrors_vertices() {
    let m = quad(Vec3 { x: 10, y: 20, z: 30 }, Vec3 { x: 100, y: 0, z: 0 }, Vec3 {
        x: 0,
        y: 100,
        z: 0,
    });
    let flip_x = Mat3 {
        x: Vec3 { x: -1, y: 0, z: 0 },
        y: Vec3 { x: 0, y: 1, z: 0 },
        z: Vec3 { x: 0, y: 0, z: 1 },
    };
    let flipped = m.transform(&flip_x);
    let orig = m.to_triangle_list();
    let got = flipped.to_triangle_list();
    assert_eq!(orig.len(), got.len());
    for (t, u) in orig.iter().zip(got.iter()) {
        assert_eq!(u.a.x, -t.a.x);
        assert_eq!(u.a.y, t.a.y);
        assert_eq!(u.a.z, t.a.z);
        assert_eq!(u.b.x, -t.b.x);
        assert_eq!(u.c.x, -t.c.x);
    }
}

#[test]
fn translate_offsets_vertices() {
    let m = quad(Vec3 { x: 0, y: 0, z: 0 }, Vec3 { x: 50, y: 0, z: 0 }, Vec3 {
        x: 0,
        y: 50,
        z: 0,
    });
    let moved = m.translate(&Vec3 { x: 1, y: 2, z: 3 });
    let orig = m.to_triangle_list();
    let got = moved.to_triangle_list();
    for (t, u) in orig.iter().zip(got.iter()) {
        assert_eq!(u.a.x, t.a.x + 1);
        assert_eq!(u.a.y, t.a.y + 2);
        assert_eq!(u.a.z, t.a.z + 3);
    }
}

#[test]
fn scaled_transform_divides() {
    let m = quad(Vec3 { x: 0, y: 0, z: 0 }, Vec3 { x: 1000, y: 0, z: 0 }, Vec3 {
        x: 0,
        y: 1000,
        z: 0,
    });
    let nine = Mat3 {
        x: Vec3 { x: 9, y: 0, z: 0 },
        y: Vec3 { x: 0, y: 9, z: 0 },
        z: Vec3 { x: 0, y: 0, z: 9 },
    };
    let scaled = m.transform_scaled(&nine, 10);
    let got = scaled.to_triangle_list();
    let orig = m.to_triangle_list();
    for (t, u) in orig.iter().zip(got.iter()) {
        assert_eq!(u.a.x, t.a.x * 9 / 10);
        assert_eq!(u.b.y, t.b.y * 9 / 10);
    }
}

#[test]
fn from_buffers_rejects_malformed() {
    // Index out of range.
    assert!(Mesh::from_buffers(vec![0, 1, 5], vec![0, 0, 0, 1, 0, 0, 0, 1, 0]).is_none());
    // Index buffer length not a multiple of three.
    assert!(Mesh::from_buffers(vec![0, 1], vec![0, 0, 0, 1, 0, 0, 0, 1, 0]).is_none());
    // Vertex buffer length not a multiple of three.
    assert!(Mesh::from_buffers(vec![0, 0, 0], vec![0, 0]).is_none());
    // Coordinate out of the supported range.
    assert!(
        Mesh::from_buffers(vec![0, 1, 2], vec![0, 0, 0, 1, 0, 0, 0, 2_000_000, 0]).is_none()
    );
    // A well-formed pair is accepted unchanged.
    let m = Mesh::from_buffers(vec![0, 1, 2], vec![0, 0, 0, 1, 0, 0, 0, 1, 0]).unwrap();
    assert_eq!(m.ids, vec![0, 1, 2]);
    assert_eq!(m.vertices, vec![0, 0, 0, 1, 0, 0, 0, 1, 0]);
}
