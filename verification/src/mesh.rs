//! Triangle meshes: a flat vertex buffer plus an index buffer.
//!
//! A well-formed mesh keeps both buffer lengths divisible by three, every
//! index below the vertex count, and every coordinate within the supported
//! range.  Meshes are transformed, translated and concatenated while the
//! topology (the index buffer) is carried along unchanged.

use vstd::prelude::*;

use crate::math::clamp_coord;
use crate::math::clamp_i;
use crate::math::div_tz;
use crate::math::in_coord_range;
use crate::math::mat_bounded;
use crate::math::spec_dot;
use crate::math::Mat3;
use crate::math::Mat3i;
use crate::math::Vec3;
use crate::math::Vec3i;
use crate::math::COORD_MAX;

verus! {

/// Cap on the combined buffer lengths a merge accepts.
pub const MERGE_MAX: usize = 0x4000_0000;

/// Mathematical model of a triangle: three unbounded integer points.
pub ghost struct Tri3i {
    pub a: Vec3i,
    pub b: Vec3i,
    pub c: Vec3i,
}

/// One triangle of a flattened mesh.
#[derive(Clone, Copy, PartialEq, Eq, Structural, Debug)]
pub struct Triangle {
    pub a: Vec3,
    pub b: Vec3,
    pub c: Vec3,
}

impl View for Triangle {
    type V = Tri3i;

    open spec fn view(&self) -> Tri3i {
        Tri3i { a: self.a@, b: self.b@, c: self.c@ }
    }
}

pub open spec fn tri_in_range(t: Tri3i) -> bool {
    in_coord_range(t.a) && in_coord_range(t.b) && in_coord_range(t.c)
}

/// A mesh: `vertices` holds three coordinates per vertex, `ids` three vertex
/// indices per triangle.
pub struct Mesh {
    pub ids: Vec<usize>,
    pub vertices: Vec<i64>,
}

/// A vertex transformed by `m`, divided by `den` (rounding toward zero) and
/// clamped into the supported coordinate range.
pub open spec fn spec_xform(m: Mat3i, den: int, v: Vec3i) -> Vec3i {
    Vec3i {
        x: clamp_i(div_tz(spec_dot(m.x, v), den), COORD_MAX as int),
        y: clamp_i(div_tz(spec_dot(m.y, v), den), COORD_MAX as int),
        z: clamp_i(div_tz(spec_dot(m.z, v), den), COORD_MAX as int),
    }
}

/// A vertex offset by `o` and clamped into the supported coordinate range.
pub open spec fn spec_translate(v: Vec3i, o: Vec3i) -> Vec3i {
    Vec3i {
        x: clamp_i(v.x + o.x, COORD_MAX as int),
        y: clamp_i(v.y + o.y, COORD_MAX as int),
        z: clamp_i(v.z + o.z, COORD_MAX as int),
    }
}

/// Vertex `k` of a flat coordinate buffer.
pub open spec fn vert_at(vs: Seq<i64>, k: int) -> Vec3i {
    Vec3i { x: vs[3 * k] as int, y: vs[3 * k + 1] as int, z: vs[3 * k + 2] as int }
}

/// A triangle transformed pointwise by `spec_xform`.
pub open spec fn xform_tri(m: Mat3i, den: int, t: Tri3i) -> Tri3i {
    Tri3i {
        a: spec_xform(m, den, t.a),
        b: spec_xform(m, den, t.b),
        c: spec_xform(m, den, t.c),
    }
}

/// A triangle translated pointwise by `spec_translate`.
pub open spec fn shift_tri(t: Tri3i, o: Vec3i) -> Tri3i {
    Tri3i {
        a: spec_translate(t.a, o),
        b: spec_translate(t.b, o),
        c: spec_translate(t.c, o),
    }
}

/// The model triangles of a flat triangle list.
pub open spec fn views_of(s: Seq<Triangle>) -> Seq<Tri3i> {
    Seq::new(s.len(), |i: int| s[i]@)
}

/// Combined index-buffer length of the first `k` meshes.
pub open spec fn total_id_len(l: Seq<Mesh>, k: int) -> int
    decreases k,
{
    if k <= 0 {
        0
    } else {
        total_id_len(l, k - 1) + l[k - 1].ids@.len()
    }
}

/// Combined vertex-buffer length of the first `k` meshes.
pub open spec fn total_vert_len(l: Seq<Mesh>, k: int) -> int
    decreases k,
{
    if k <= 0 {
        0
    } else {
        total_vert_len(l, k - 1) + l[k - 1].vertices@.len()
    }
}

proof fn lemma_total_nonneg(l: Seq<Mesh>, k: int)
    ensures
        total_id_len(l, k) >= 0,
        total_vert_len(l, k) >= 0,
    decreases k,
{
    if k > 0 {
        lemma_total_nonneg(l, k - 1);
    }
}

pub(crate) proof fn lemma_total_prefix(l: Seq<Mesh>, k1: int, k2: int)
    requires
        0 <= k1 <= k2,
    ensures
        total_id_len(l, k1) <= total_id_len(l, k2),
        total_vert_len(l, k1) <= total_vert_len(l, k2),
        total_id_len(l, k1) >= 0,
        total_vert_len(l, k1) >= 0,
    decreases k2,
{
    lemma_total_nonneg(l, k1);
    if k2 > 0 && k1 <= k2 - 1 {
        lemma_total_prefix(l, k1, k2 - 1);
    }
}

pub(crate) proof fn lemma_totals_div3(l: Seq<Mesh>, k: int)
    requires
        0 <= k <= l.len(),
        forall|mi: int| 0 <= mi < l.len() ==> l[mi].wf(),
    ensures
        total_id_len(l, k) % 3 == 0,
        total_vert_len(l, k) % 3 == 0,
    decreases k,
{
    if k > 0 {
        lemma_totals_div3(l, k - 1);
    }
}

impl Mesh {
    /// Number of vertices.
    pub open spec fn num_verts(&self) -> int {
        self.vertices@.len() as int / 3
    }

    /// Number of triangles.
    pub open spec fn num_tris(&self) -> int {
        self.ids@.len() as int / 3
    }

    /// Vertex `k` as a model vector.
    pub open spec fn vertex(&self, k: int) -> Vec3i {
        vert_at(self.vertices@, k)
    }

    /// Triangle `j` as a model triangle.
    pub open spec fn spec_tri(&self, j: int) -> Tri3i {
        Tri3i {
            a: self.vertex(self.ids@[3 * j] as int),
            b: self.vertex(self.ids@[3 * j + 1] as int),
            c: self.vertex(self.ids@[3 * j + 2] as int),
        }
    }

    /// The mesh's triangles as a sequence of models.
    pub open spec fn models(&self) -> Seq<Tri3i> {
        Seq::new((self.ids@.len() / 3) as nat, |j: int| self.spec_tri(j))
    }

    /// Well-formedness: buffer lengths divisible by three, indices in range,
    /// coordinates within the supported range.
    pub open spec fn wf(&self) -> bool {
        &&& self.vertices@.len() % 3 == 0
        &&& self.ids@.len() % 3 == 0
        &&& forall|p: int| 0 <= p < self.ids@.len() ==> (self.ids@[p] as int) < self.num_verts()
        &&& forall|p: int|
            0 <= p < self.vertices@.len() ==> -COORD_MAX <= #[trigger] self.vertices@[p]
                <= COORD_MAX
    }

    /// Wrap raw buffers as a mesh after checking well-formedness; malformed
    /// buffers are rejected rather than carried along.
    pub fn from_buffers(ids: Vec<usize>, vertices: Vec<i64>) -> (r: Option<Mesh>)
        ensures
            r is Some <==> (Mesh { ids: ids, vertices: vertices }).wf(),
            r is Some ==> r->0.ids@ == ids@ && r->0.vertices@ == vertices@,
    {
        if ids.len() % 3 != 0 || vertices.len() % 3 != 0 {
            return None;
        }
        let nverts: usize = vertices.len() / 3;
        let mut p: usize = 0;
        while p < ids.len()
            invariant
                0 <= p <= ids@.len(),
                forall|q: int| 0 <= q < p ==> (ids@[q] as int) < nverts as int,
                nverts as int == vertices@.len() as int / 3,
            decreases ids@.len() - p,
        {
            if ids[p] >= nverts {
                return None;
            }
            p = p + 1;
        }
        let mut q: usize = 0;
        while q < vertices.len()
            invariant
                0 <= q <= vertices@.len(),
                forall|w: int| 0 <= w < q ==> -COORD_MAX <= #[trigger] vertices@[w] <= COORD_MAX,
            decreases vertices@.len() - q,
        {
            if vertices[q] < -COORD_MAX || vertices[q] > COORD_MAX {
                return None;
            }
            q = q + 1;
        }
        Some(Mesh { ids, vertices })
    }

    /// An owned copy with the same buffers.
    pub fn duplicate(&self) -> (r: Mesh)
        ensures
            r.ids@ == self.ids@,
            r.vertices@ == self.vertices@,
    {
        let mut ids: Vec<usize> = Vec::new();
        let mut p: usize = 0;
        while p < self.ids.len()
            invariant
                0 <= p <= self.ids@.len(),
                ids@ == self.ids@.subrange(0, p as int),
            decreases self.ids@.len() - p,
        {
            ids.push(self.ids[p]);
            proof {
                assert(ids@ =~= self.ids@.subrange(0, p as int + 1));
            }
            p = p + 1;
        }
        let mut vertices: Vec<i64> = Vec::new();
        let mut q: usize = 0;
        while q < self.vertices.len()
            invariant
                0 <= q <= self.vertices@.len(),
                vertices@ == self.vertices@.subrange(0, q as int),
            decreases self.vertices@.len() - q,
        {
            vertices.push(self.vertices[q]);
            proof {
                assert(vertices@ =~= self.vertices@.subrange(0, q as int + 1));
            }
            q = q + 1;
        }
        proof {
            assert(ids@ =~= self.ids@);
            assert(vertices@ =~= self.vertices@);
        }
        Mesh { ids, vertices }
    }

    /// New mesh with every vertex transformed by `m` and divided by `den`;
    /// the index buffer is untouched, so the topology is preserved.
    pub fn transform_scaled(&self, m: &Mat3, den: i64) -> (r: Mesh)
        requires
            self.wf(),
            den >= 1,
            mat_bounded(m@, COORD_MAX as int),
        ensures
            r.wf(),
            r.ids@ == self.ids@,
            r.num_verts() == self.num_verts(),
            forall|k: int|
                0 <= k < self.num_verts() ==> r.vertex(k) == spec_xform(
                    m@,
                    den as int,
                    self.vertex(k),
                ),
    {
        let vl: usize = self.vertices.len();
        let n: usize = vl / 3;
        let mut vertices: Vec<i64> = Vec::new();
        let mut i: usize = 0;
        let mut b: usize = 0;
        while i < n
            invariant
                0 <= i <= n,
                self.wf(),
                den >= 1,
                mat_bounded(m@, COORD_MAX as int),
                vl as int == self.vertices@.len(),
                n as int == self.num_verts(),
                b as int == 3 * (i as int),
                vertices@.len() == 3 * i,
                forall|p: int| 0 <= p < vertices@.len() ==> -COORD_MAX <= #[trigger] vertices@[p] <= COORD_MAX,
                forall|k: int|
                    0 <= k < i as int ==> #[trigger] vert_at(vertices@, k) == spec_xform(
                        m@,
                        den as int,
                        self.vertex(k),
                    ),
            decreases n - i,
        {
            proof {
                assert(b as int + 2 < vl as int);
            }
            let v = Vec3 {
                x: self.vertices[b],
                y: self.vertices[b + 1],
                z: self.vertices[b + 2],
            };
            let w = m.apply(&v);
            let ghost old_vs = vertices@;
            let nx = clamp_coord(w.x / den);
            let ny = clamp_coord(w.y / den);
            let nz = clamp_coord(w.z / den);
            vertices.push(nx);
            vertices.push(ny);
            vertices.push(nz);
            proof {
                assert(v@ == self.vertex(i as int));
                assert(vertices@ =~= old_vs + seq![nx, ny, nz]);
                assert forall|k: int|
                    0 <= k < i as int + 1 implies #[trigger] vert_at(vertices@, k) == spec_xform(
                    m@,
                    den as int,
                    self.vertex(k),
                ) by {
                    if k < i as int {
                        assert(vertices@[3 * k] == old_vs[3 * k]);
                        assert(vertices@[3 * k + 1] == old_vs[3 * k + 1]);
                        assert(vertices@[3 * k + 2] == old_vs[3 * k + 2]);
                        assert(vert_at(vertices@, k) == vert_at(old_vs, k));
                    } else {
                        assert(vertices@[3 * k] == nx);
                        assert(vertices@[3 * k + 1] == ny);
                        assert(vertices@[3 * k + 2] == nz);
                    }
                }
            }
            b = b + 3;
            i = i + 1;
        }
        let ids = self.duplicate_ids();
        Mesh { ids, vertices }
    }

    /// New mesh with the transform applied as it stands (no scaling divisor).
    pub fn transform(&self, m: &Mat3) -> (r: Mesh)
        requires
            self.wf(),
            mat_bounded(m@, COORD_MAX as int),
        ensures
            r.wf(),
            r.ids@ == self.ids@,
            r.num_verts() == self.num_verts(),
            forall|k: int|
                0 <= k < self.num_verts() ==> r.vertex(k) == spec_xform(m@, 1, self.vertex(k)),
    {
        self.transform_scaled(m, 1)
    }

    /// New mesh with every vertex offset by `o`; topology untouched.
    pub fn translate(&self, o: &Vec3) -> (r: Mesh)
        requires
            self.wf(),
            in_coord_range(o@),
        ensures
            r.wf(),
            r.ids@ == self.ids@,
            r.num_verts() == self.num_verts(),
            forall|k: int|
                0 <= k < self.num_verts() ==> r.vertex(k) == spec_translate(self.vertex(k), o@),
    {
        let vl: usize = self.vertices.len();
        let n: usize = vl / 3;
        let mut vertices: Vec<i64> = Vec::new();
        let mut i: usize = 0;
        let mut b: usize = 0;
        while i < n
            invariant
                0 <= i <= n,
                self.wf(),
                in_coord_range(o@),
                vl as int == self.vertices@.len(),
                n as int == self.num_verts(),
                b as int == 3 * (i as int),
                vertices@.len() == 3 * i,
                forall|p: int| 0 <= p < vertices@.len() ==> -COORD_MAX <= #[trigger] vertices@[p] <= COORD_MAX,
                forall|k: int|
                    0 <= k < i as int ==> #[trigger] vert_at(vertices@, k) == spec_translate(
                        self.vertex(k),
                        o@,
                    ),
            decreases n - i,
        {
            proof {
                assert(b as int + 2 < vl as int);
            }
            let ghost old_vs = vertices@;
            let nx = clamp_coord(self.vertices[b] + o.x);
            let ny = clamp_coord(self.vertices[b + 1] + o.y);
            let nz = clamp_coord(self.vertices[b + 2] + o.z);
            vertices.push(nx);
            vertices.push(ny);
            vertices.push(nz);
            proof {
                assert(vertices@ =~= old_vs + seq![nx, ny, nz]);
                assert forall|k: int|
                    0 <= k < i as int + 1 implies #[trigger] vert_at(vertices@, k)
                    == spec_translate(self.vertex(k), o@) by {
                    if k < i as int {
                        assert(vertices@[3 * k] == old_vs[3 * k]);
                        assert(vertices@[3 * k + 1] == old_vs[3 * k + 1]);
                        assert(vertices@[3 * k + 2] == old_vs[3 * k + 2]);
                        assert(vert_at(vertices@, k) == vert_at(old_vs, k));
                    } else {
                        assert(vertices@[3 * k] == nx);
                        assert(vertices@[3 * k + 1] == ny);
                        assert(vertices@[3 * k + 2] == nz);
                    }
                }
            }
            b = b + 3;
            i = i + 1;
        }
        let ids = self.duplicate_ids();
        Mesh { ids, vertices }
    }

    fn duplicate_ids(&self) -> (r: Vec<usize>)
        ensures
            r@ == self.ids@,
    {
        let mut ids: Vec<usize> = Vec::new();
        let mut p: usize = 0;
        while p < self.ids.len()
            invariant
                0 <= p <= self.ids@.len(),
                ids@ == self.ids@.subrange(0, p as int),
            decreases self.ids@.len() - p,
        {
            ids.push(self.ids[p]);
            proof {
                assert(ids@ =~= self.ids@.subrange(0, p as int + 1));
            }
            p = p + 1;
        }
        proof {
            assert(ids@ =~= self.ids@);
        }
        ids
    }

    /// Concatenate meshes: vertex buffers are appended in order and each
    /// mesh's indices are shifted by the running vertex count, so the
    /// combined mesh holds the triangles of every input, in order, with all
    /// coordinates unchanged.
    pub fn merge(list: &Vec<Mesh>) -> (r: Mesh)
        requires
            forall|mi: int| 0 <= mi < list@.len() ==> list@[mi].wf(),
            total_id_len(list@, list@.len() as int) <= MERGE_MAX as int,
            total_vert_len(list@, list@.len() as int) <= MERGE_MAX as int,
        ensures
            r.wf(),
            r.ids@.len() == total_id_len(list@, list@.len() as int),
            r.vertices@.len() == total_vert_len(list@, list@.len() as int),
            forall|mi: int, j: int|
                0 <= mi < list@.len() && 0 <= j < list@[mi].num_tris() ==> r.spec_tri(
                    total_id_len(list@, mi) / 3 + j,
                ) == list@[mi].spec_tri(j),
    {
        let ghost l = list@;
        let mut ids: Vec<usize> = Vec::new();
        let mut vertices: Vec<i64> = Vec::new();
        let mut i: usize = 0;
        while i < list.len()
            invariant
                0 <= i <= l.len(),
                list@ == l,
                forall|mi: int| 0 <= mi < l.len() ==> l[mi].wf(),
                total_id_len(l, l.len() as int) <= MERGE_MAX as int,
                total_vert_len(l, l.len() as int) <= MERGE_MAX as int,
                ids@.len() == total_id_len(l, i as int),
                vertices@.len() == total_vert_len(l, i as int),
                vertices@.len() % 3 == 0,
                ids@.len() % 3 == 0,
                forall|p: int| 0 <= p < vertices@.len() ==> -COORD_MAX <= #[trigger] vertices@[p] <= COORD_MAX,
                forall|p: int|
                    0 <= p < ids@.len() ==> (ids@[p] as int) < vertices@.len() as int / 3,
                forall|mi: int, p: int|
                    0 <= mi < i as int && 0 <= p < l[mi].vertices@.len() ==> vertices@[
                        total_vert_len(l, mi) + p
                    ] == l[mi].vertices@[p],
                forall|mi: int, p: int|
                    0 <= mi < i as int && 0 <= p < l[mi].ids@.len() ==> (ids@[
                        total_id_len(l, mi) + p
                    ] as int) == l[mi].ids@[p] as int + total_vert_len(l, mi) / 3,
            decreases l.len() - i,
        {
            proof {
                lemma_total_prefix(l, i as int, i as int + 1);
                lemma_total_prefix(l, i as int + 1, l.len() as int);
                lemma_totals_div3(l, i as int);
            }
            let m: &Mesh = &list[i];
            let voff: usize = vertices.len() / 3;
            let ghost old_ids = ids@;
            let ghost old_verts = vertices@;
            let mut p: usize = 0;
            while p < m.vertices.len()
                invariant
                    0 <= p <= m.vertices@.len(),
                    m.wf(),
                    m.ids@ == l[i as int].ids@,
                    m.vertices@ == l[i as int].vertices@,
                    old_verts.len() + m.vertices@.len() <= MERGE_MAX as int,
                    vertices@ == old_verts + m.vertices@.subrange(0, p as int),
                decreases m.vertices@.len() - p,
            {
                vertices.push(m.vertices[p]);
                proof {
                    assert(vertices@ =~= old_verts + m.vertices@.subrange(0, p as int + 1));
                }
                p = p + 1;
            }
            proof {
                assert(vertices@ =~= old_verts + m.vertices@);
            }
            let mut p: usize = 0;
            while p < m.ids.len()
                invariant
                    0 <= p <= m.ids@.len(),
                    m.wf(),
                    m.ids@ == l[i as int].ids@,
                    m.vertices@ == l[i as int].vertices@,
                    old_ids.len() + m.ids@.len() <= MERGE_MAX as int,
                    old_verts.len() + m.vertices@.len() <= MERGE_MAX as int,
                    voff as int == old_verts.len() / 3,
                    old_verts.len() % 3 == 0,
                    vertices@ == old_verts + m.vertices@,
                    ids@.len() == old_ids.len() + p,
                    ids@.subrange(0, old_ids.len() as int) == old_ids,
                    forall|q: int|
                        0 <= q < p ==> (#[trigger] ids@[old_ids.len() + q] as int) == l[
                            i as int
                        ].ids@[q] as int + voff as int,
                decreases m.ids@.len() - p,
            {
                let nid: usize = m.ids[p] + voff;
                let ghost prev = ids@;
                ids.push(nid);
                proof {
                    assert(ids@.subrange(0, old_ids.len() as int) =~= prev.subrange(
                        0,
                        old_ids.len() as int,
                    ));
                    assert forall|q: int|
                        0 <= q < p as int + 1 implies (#[trigger] ids@[old_ids.len() + q] as int)
                        == l[i as int].ids@[q] as int + voff as int by {
                        if q < p as int {
                            assert(ids@[old_ids.len() + q] == prev[old_ids.len() + q]);
                        } else {
                            assert(ids@[old_ids.len() + q] == nid);
                        }
                    }
                }
                p = p + 1;
            }
            proof {
                // The new segment keeps every index below the grown vertex count.
                assert(vertices@.len() == old_verts.len() + l[i as int].vertices@.len());
                assert(vertices@.len() % 3 == 0);
                assert forall|p2: int| 0 <= p2 < ids@.len() implies (ids@[p2] as int) < vertices@
                    .len() as int / 3 by {
                    if p2 < old_ids.len() {
                        assert(ids@[p2] == old_ids[p2]);
                    } else {
                        let q = p2 - old_ids.len();
                        assert((ids@[old_ids.len() + q] as int) == l[i as int].ids@[q] as int
                            + voff as int);
                        assert((ids@[p2] as int) == l[i as int].ids@[q] as int + voff as int);
                        assert((l[i as int].ids@[q] as int) < l[i as int].vertices@.len() as int
                            / 3);
                    }
                }
                // Raw prefix facts for the meshes already copied still hold,
                // and now hold for mesh `i` as well.
                assert forall|mi: int, p2: int|
                    0 <= mi < i as int + 1 && 0 <= p2 < l[mi].vertices@.len() implies vertices@[
                    total_vert_len(l, mi) + p2
                ] == l[mi].vertices@[p2] by {
                    if mi < i as int {
                        lemma_total_prefix(l, mi, i as int);
                        lemma_total_prefix(l, mi + 1, i as int);
                        assert(total_vert_len(l, mi) + p2 < total_vert_len(l, mi + 1));
                        assert(vertices@[total_vert_len(l, mi) + p2] == old_verts[total_vert_len(
                            l,
                            mi,
                        ) + p2]);
                    } else {
                        assert(total_vert_len(l, mi) == old_verts.len());
                    }
                }
                assert forall|mi: int, p2: int|
                    0 <= mi < i as int + 1 && 0 <= p2 < l[mi].ids@.len() implies (ids@[
                    total_id_len(l, mi) + p2
                ] as int) == l[mi].ids@[p2] as int + total_vert_len(l, mi) / 3 by {
                    if mi < i as int {
                        lemma_total_prefix(l, mi, i as int);
                        lemma_total_prefix(l, mi + 1, i as int);
                        assert(total_id_len(l, mi) + p2 < total_id_len(l, mi + 1));
                        assert(ids@[total_id_len(l, mi) + p2] == old_ids[total_id_len(l, mi) + p2]);
                    } else {
                        assert(total_id_len(l, mi) == old_ids.len());
                        assert(total_vert_len(l, mi) == old_verts.len());
                    }
                }
            }
            i = i + 1;
        }
        let r = Mesh { ids, vertices };
        proof {
            lemma_totals_div3(l, l.len() as int);
            // Derive the triangle-level mapping from the raw element facts.
            assert forall|mi: int, j: int|
                0 <= mi < l.len() && 0 <= j < l[mi].num_tris() implies r.spec_tri(
                total_id_len(l, mi) / 3 + j,
            ) == l[mi].spec_tri(j) by {
                lemma_totals_div3(l, mi);
                lemma_total_prefix(l, mi, l.len() as int);
                lemma_total_prefix(l, mi + 1, l.len() as int);
                let tb = total_id_len(l, mi) / 3;
                let vb = total_vert_len(l, mi) / 3;
                assert(3 * tb == total_id_len(l, mi));
                assert(3 * vb == total_vert_len(l, mi));
                let m = l[mi];
                assert(m.wf());
                assert forall|c: int| 0 <= c < 3 implies (#[trigger] r.ids@[3 * (tb + j) + c] as int)
                    == m.ids@[3 * j + c] as int + vb by {
                    assert(3 * (tb + j) + c == total_id_len(l, mi) + (3 * j + c));
                    assert(3 * j + c < m.ids@.len());
                }
                assert forall|k: int, d: int|
                    0 <= k < m.num_verts() && 0 <= d < 3 implies #[trigger] r.vertices@[3 * (vb + k)
                    + d] == m.vertices@[3 * k + d] by {
                    assert(3 * (vb + k) + d == total_vert_len(l, mi) + (3 * k + d));
                    assert(3 * k + d < m.vertices@.len());
                }
                assert forall|k: int| 0 <= k < m.num_verts() implies r.vertex(vb + k) == m.vertex(
                    k,
                ) by {
                    assert(r.vertices@[3 * (vb + k)] == m.vertices@[3 * k]);
                    assert(r.vertices@[3 * (vb + k) + 1] == m.vertices@[3 * k + 1]);
                    assert(r.vertices@[3 * (vb + k) + 2] == m.vertices@[3 * k + 2]);
                }
                assert((m.ids@[3 * j] as int) < m.num_verts());
                assert((m.ids@[3 * j + 1] as int) < m.num_verts());
                assert((m.ids@[3 * j + 2] as int) < m.num_verts());
                assert(r.vertex(vb + m.ids@[3 * j] as int) == m.vertex(m.ids@[3 * j] as int));
                assert(r.vertex(vb + m.ids@[3 * j + 1] as int) == m.vertex(
                    m.ids@[3 * j + 1] as int,
                ));
                assert(r.vertex(vb + m.ids@[3 * j + 2] as int) == m.vertex(
                    m.ids@[3 * j + 2] as int,
                ));
            }
        }
        r
    }

    /// Expand the index buffer against the vertex buffer into a flat
    /// triangle list.
    pub fn to_triangle_list(&self) -> (r: Vec<Triangle>)
        requires
            self.wf(),
        ensures
            r@.len() == self.num_tris(),
            forall|j: int| 0 <= j < r@.len() ==> r@[j]@ == self.spec_tri(j),
            forall|j: int| 0 <= j < r@.len() ==> tri_in_range(r@[j]@),
    {
        let il: usize = self.ids.len();
        let vl: usize = self.vertices.len();
        let n: usize = il / 3;
        let mut r: Vec<Triangle> = Vec::new();
        let mut j: usize = 0;
        let mut jb: usize = 0;
        while j < n
            invariant
                0 <= j <= n,
                self.wf(),
                il as int == self.ids@.len(),
                vl as int == self.vertices@.len(),
                n as int == self.num_tris(),
                jb as int == 3 * (j as int),
                r@.len() == j,
                forall|q: int| 0 <= q < j as int ==> r@[q]@ == self.spec_tri(q),
                forall|q: int| 0 <= q < j as int ==> tri_in_range(r@[q]@),
            decreases n - j,
        {
            proof {
                assert(jb as int + 2 < il as int);
            }
            let ia: usize = self.ids[jb];
            let ib: usize = self.ids[jb + 1];
            let ic: usize = self.ids[jb + 2];
            proof {
                assert(3 * (ia as int) + 2 < vl as int);
                assert(3 * (ib as int) + 2 < vl as int);
                assert(3 * (ic as int) + 2 < vl as int);
            }
            let t = Triangle {
                a: Vec3 {
                    x: self.vertices[3 * ia],
                    y: self.vertices[3 * ia + 1],
                    z: self.vertices[3 * ia + 2],
                },
                b: Vec3 {
                    x: self.vertices[3 * ib],
                    y: self.vertices[3 * ib + 1],
                    z: self.vertices[3 * ib + 2],
                },
                c: Vec3 {
                    x: self.vertices[3 * ic],
                    y: self.vertices[3 * ic + 1],
                    z: self.vertices[3 * ic + 2],
                },
            };
            r.push(t);
            jb = jb + 3;
            j = j + 1;
        }
        r
    }
}

/// A transformed mesh's triangles are the source's triangles transformed.
pub proof fn lemma_models_transform(m: Mesh, r: Mesh, mat: Mat3i, den: int)
    requires
        m.wf(),
        r.ids@ == m.ids@,
        r.num_verts() == m.num_verts(),
        forall|k: int| 0 <= k < m.num_verts() ==> r.vertex(k) == spec_xform(mat, den, m.vertex(k)),
    ensures
        r.models() == m.models().map_values(|t: Tri3i| xform_tri(mat, den, t)),
{
    assert forall|j: int| 0 <= j < m.num_tris() implies r.spec_tri(j) == xform_tri(
        mat,
        den,
        m.spec_tri(j),
    ) by {
        assert(3 * j + 2 < m.ids@.len());
        assert((m.ids@[3 * j] as int) < m.num_verts());
        assert((m.ids@[3 * j + 1] as int) < m.num_verts());
        assert((m.ids@[3 * j + 2] as int) < m.num_verts());
    }
    assert(r.models() =~= m.models().map_values(|t: Tri3i| xform_tri(mat, den, t)));
}

/// A translated mesh's triangles are the source's triangles shifted.
pub proof fn lemma_models_translate(m: Mesh, r: Mesh, o: Vec3i)
    requires
        m.wf(),
        r.ids@ == m.ids@,
        r.num_verts() == m.num_verts(),
        forall|k: int| 0 <= k < m.num_verts() ==> r.vertex(k) == spec_translate(m.vertex(k), o),
    ensures
        r.models() == m.models().map_values(|t: Tri3i| shift_tri(t, o)),
{
    assert forall|j: int| 0 <= j < m.num_tris() implies r.spec_tri(j) == shift_tri(
        m.spec_tri(j),
        o,
    ) by {
        assert(3 * j + 2 < m.ids@.len());
        assert((m.ids@[3 * j] as int) < m.num_verts());
        assert((m.ids@[3 * j + 1] as int) < m.num_verts());
        assert((m.ids@[3 * j + 2] as int) < m.num_verts());
    }
    assert(r.models() =~= m.models().map_values(|t: Tri3i| shift_tri(t, o)));
}

/// The triangles of the first `k` meshes, in order.
pub open spec fn concat_models(l: Seq<Mesh>, k: int) -> Seq<Tri3i>
    decreases k,
{
    if k <= 0 {
        Seq::empty()
    } else {
        concat_models(l, k - 1) + l[k - 1].models()
    }
}

proof fn lemma_merge_models_upto(l: Seq<Mesh>, r: Mesh, k: int)
    requires
        0 <= k <= l.len(),
        forall|mi: int| 0 <= mi < l.len() ==> (#[trigger] l[mi]).wf(),
        r.ids@.len() == total_id_len(l, l.len() as int),
        forall|mi: int, j: int|
            0 <= mi < l.len() && 0 <= j < l[mi].num_tris() ==> r.spec_tri(
                total_id_len(l, mi) / 3 + j,
            ) == l[mi].spec_tri(j),
    ensures
        concat_models(l, k) == r.models().subrange(0, total_id_len(l, k) / 3),
    decreases k,
{
    lemma_totals_div3(l, k);
    lemma_total_prefix(l, k, l.len() as int);
    if k == 0 {
        assert(concat_models(l, 0) =~= r.models().subrange(0, 0));
    } else {
        lemma_merge_models_upto(l, r, k - 1);
        lemma_totals_div3(l, k - 1);
        lemma_total_prefix(l, k - 1, k);
        let tb = total_id_len(l, k - 1) / 3;
        let te = total_id_len(l, k) / 3;
        assert(te == tb + l[k - 1].num_tris());
        assert forall|p: int| 0 <= p < te implies r.models().subrange(0, te)[p] == (concat_models(
            l,
            k - 1,
        ) + l[k - 1].models())[p] by {
            if p < tb {
                assert(r.models().subrange(0, tb)[p] == r.models()[p]);
            } else {
                let j = p - tb;
                assert(r.spec_tri(total_id_len(l, k - 1) / 3 + j) == l[k - 1].spec_tri(j));
            }
        }
        assert(r.models().subrange(0, te) =~= concat_models(l, k - 1) + l[k - 1].models());
    }
}

/// A merged mesh's triangles are the inputs' triangles, in order.
pub proof fn lemma_merge_models(l: Seq<Mesh>, r: Mesh)
    requires
        forall|mi: int| 0 <= mi < l.len() ==> (#[trigger] l[mi]).wf(),
        r.ids@.len() == total_id_len(l, l.len() as int),
        forall|mi: int, j: int|
            0 <= mi < l.len() && 0 <= j < l[mi].num_tris() ==> r.spec_tri(
                total_id_len(l, mi) / 3 + j,
            ) == l[mi].spec_tri(j),
    ensures
        r.models() == concat_models(l, l.len() as int),
{
    lemma_merge_models_upto(l, r, l.len() as int);
    lemma_totals_div3(l, l.len() as int);
    assert(r.models().subrange(0, total_id_len(l, l.len() as int) / 3) =~= r.models());
}

} // verus!
