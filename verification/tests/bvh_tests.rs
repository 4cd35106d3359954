use ballsim::bvh::nearest_hit_brute;
use ballsim::bvh::Bvh;
use ballsim::math::Vec3;
use ballsim::mesh::Triangle;

fn tri(a: [i64; 3], b: [i64; 3], c: [i64; 3]) -> Triangle {
    Triangle {
        a: Vec3 { x: a[0], y: a[1], z: a[2] },
        b: Vec3 { x: b[0], y: b[1], z: b[2] },
        c: Vec3 { x: c[0], y: c[1], z: c[2] },
    }
}

struct Lcg(u64);

impl Lcg {
    fn next(&mut self) -> u64 {
        self.0 = self.0.wrapping_mul(6364136223846793005).wrapping_add(1442695040888963407);
        self.0 >> 33
    }

    fn coord(&mut self) -> i64 {
        (self.next() % 4001) as i64 - 2000
    }
}

#[test]
fn build_rejects_empty() {
    let tris: Vec<Triangle> = Vec::new();
    assert!(Bvh::build(&tris).is_none());
}

#[test]
fn root_box_contains_every_triangle() {
    let mut rng = Lcg(7);
    let mut tris: Vec<Triangle> = Vec::new();
    for _ in 0..40 {
        tris.push(tri(
            [rng.coord(), rng.coord(), rng.coord()],
            [rng.coord(), rng.coord(), rng.coord()],
            [rng.coord(), rng.coord(), rng.coord()],
        ));
    }
    let bvh = Bvh::build(&tris).unwrap();
    let root = &bvh.nodes[bvh.root];
    for t in &bvh.tris {
        for p in [&t.a, &t.b, &t.c] {
            assert!(root.bb.lo.x <= p.x && p.x <= root.bb.hi.x);
            assert!(root.bb.lo.y <= p.y && p.y <= root.bb.hi.y);
            assert!(root.bb.lo.z <= p.z && p.z <= root.bb.hi.z);
        }
    }
}

#[test]
fn ray_through_centroid_hits_triangle() {
    // A segment through the triangle's centroid, offset along its normal,
    // is reported as intersecting it.
    let t = tri([0, 0, 0], [3000, 0, 0], [0, 3000, 0]);
    let tris = vec![t];
    let bvh = Bvh::build(&tris).unwrap();
    let p = Vec3 { x: 1000, y: 1000, z: 500 };
    let q = Vec3 { x: 1000, y: 1000, z: -500 };
    let hit = bvh.nearest_hit(&p, &q).unwrap();
    assert_eq!(hit.tri, t);
}

#[test]
fn bvh_matches_brute_force() {
    // For a pseudo-random set of triangles and query segments, the
    // hierarchy's nearest-crossing result matches an exhaustive check.
    let mut rng = Lcg(42);
    let mut tris: Vec<Triangle> = Vec::new();
    for _ in 0..120 {
        let base = [rng.coord(), rng.coord(), rng.coord()];
        tris.push(tri(
            base,
            [
                base[0] + (rng.next() % 700) as i64,
                base[1] + (rng.next() % 700) as i64,
                base[2] + (rng.next() % 700) as i64,
            ],
            [
                base[0] - (rng.next() % 700) as i64,
                base[1] + (rng.next() % 700) as i64,
                base[2] + (rng.next() % 700) as i64,
            ],
        ));
    }
    let bvh = Bvh::build(&tris).unwrap();
    let mut hits = 0;
    for _ in 0..200 {
        let p = Vec3 { x: rng.coord(), y: rng.coord(), z: rng.coord() };
        let q = Vec3 { x: rng.coord(), y: rng.coord(), z: rng.coord() };
        let fast = bvh.nearest_hit(&p, &q);
        let slow = nearest_hit_brute(&bvh.tris, &p, &q);
        assert_eq!(fast, slow);
        if fast.is_some() {
            hits += 1;
        }
    }
    assert!(hits > 0, "the random queries never crossed a triangle");
}

#[test]
fn nearest_contact_finds_close_triangle() {
    let near = tri([0, 0, 0], [100, 0, 0], [0, 100, 0]);
    let far = tri([5000, 5000, 5000], [5100, 5000, 5000], [5000, 5100, 5000]);
    let tris = vec![near, far];
    let bvh = Bvh::build(&tris).unwrap();
    let c = Vec3 { x: 10, y: 10, z: 40 };
    let hit = bvh.nearest_contact(&c, 50).unwrap();
    assert_eq!(hit.tri, near);
    assert_eq!(hit.dist2, 40 * 40);
    assert!(bvh.nearest_contact(&c, 30).is_none());
}
