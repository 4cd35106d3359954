//! Bounding-volume hierarchy over a triangle list.
//!
//! The tree lives in a flat node buffer; children are referenced by index
//! and always precede their parent, so the structure is immutable and
//! cheaply shared once built.  Every node's box encloses the boxes of the
//! triangles of its range, which makes pruning sound: a query that misses a
//! node's box misses everything below it.

use vstd::prelude::*;
use vstd::seq_lib::lemma_multiset_commutative;

use crate::geom::box_dist2;
use crate::geom::box_dist2_e;
use crate::geom::box_in_box;
use crate::geom::box_in_range;
use crate::geom::box_union;
use crate::geom::box_union_e;
use crate::geom::box_wf;
use crate::geom::boxes_overlap;
use crate::geom::boxes_overlap_e;
use crate::geom::hit_key;
use crate::geom::KEY_SCALE;
use crate::geom::lemma_box_dist2_mono;
use crate::geom::lemma_overlap_mono;
use crate::geom::seg_box;
use crate::geom::seg_tri_hit;
use crate::geom::seg_tri_test;
use crate::geom::spec_seg_box;
use crate::geom::spec_tri_box;
use crate::geom::tri_box;
use crate::geom::Aabb;
use crate::math::in_coord_range;
use crate::math::Vec3;
use crate::math::Vec3i;
use crate::math::COORD_MAX;
use crate::mesh::tri_in_range;
use crate::mesh::views_of;
use crate::mesh::Tri3i;
use crate::mesh::Triangle;

verus! {

broadcast use vstd::seq_lib::group_to_multiset_ensures, vstd::multiset::group_multiset_axioms;

/// One node of the hierarchy: a box over the triangle range
/// `[start, end)`, either a leaf of one triangle or two children stored
/// earlier in the buffer.
#[derive(Clone, Copy, PartialEq, Eq, Structural, Debug)]
pub struct BvhNode {
    pub bb: Aabb,
    pub start: usize,
    pub end: usize,
    pub left: usize,
    pub right: usize,
    pub leaf: bool,
}

/// The hierarchy: triangles reordered during construction, the node
/// buffer, and the root index.
pub struct Bvh {
    pub tris: Vec<Triangle>,
    pub nodes: Vec<BvhNode>,
    pub root: usize,
}

/// Structural well-formedness of the subtree rooted at `i`.
pub open spec fn tree_wf(nodes: Seq<BvhNode>, tris: Seq<Triangle>, i: int) -> bool
    decreases i,
{
    if i < 0 || i >= nodes.len() {
        false
    } else {
        let n = nodes[i];
        &&& 0 <= n.start < n.end <= tris.len()
        &&& box_wf(n.bb@)
        &&& box_in_range(n.bb@)
        &&& forall|k: int|
            n.start <= k < n.end ==> box_in_box(spec_tri_box(#[trigger] tris[k]@), n.bb@)
        &&& if n.leaf {
            n.end == n.start + 1
        } else {
            if (n.left as int) < i && (n.right as int) < i {
                &&& nodes[n.left as int].start == n.start
                &&& nodes[n.left as int].end == nodes[n.right as int].start
                &&& nodes[n.right as int].end == n.end
                &&& box_in_box(nodes[n.left as int].bb@, n.bb@)
                &&& box_in_box(nodes[n.right as int].bb@, n.bb@)
                &&& tree_wf(nodes, tris, n.left as int)
                &&& tree_wf(nodes, tris, n.right as int)
            } else {
                false
            }
        }
    }
}

/// Subtree well-formedness depends only on the nodes up to the root and
/// the triangles of the root's range.
proof fn lemma_tree_wf_frame(
    nodes1: Seq<BvhNode>,
    tris1: Seq<Triangle>,
    nodes2: Seq<BvhNode>,
    tris2: Seq<Triangle>,
    i: int,
)
    requires
        tree_wf(nodes1, tris1, i),
        nodes2.len() >= nodes1.len(),
        forall|j: int| 0 <= j < nodes1.len() ==> nodes2[j] == nodes1[j],
        tris2.len() == tris1.len(),
        forall|k: int|
            nodes1[i].start <= k < nodes1[i].end ==> tris2[k] == #[trigger] tris1[k],
    ensures
        tree_wf(nodes2, tris2, i),
    decreases i,
{
    let n = nodes1[i];
    assert(nodes2[i] == nodes1[i]);
    assert forall|k: int| n.start <= k < n.end implies box_in_box(
        spec_tri_box(#[trigger] tris2[k]@),
        nodes2[i].bb@,
    ) by {
        assert(tris2[k] == tris1[k]);
        assert(box_in_box(spec_tri_box(tris1[k]@), nodes1[i].bb@));
    }
    if !n.leaf {
        let l = n.left as int;
        let r = n.right as int;
        assert(tree_wf(nodes1, tris1, l));
        assert(tree_wf(nodes1, tris1, r));
        assert forall|k: int| nodes1[l].start <= k < nodes1[l].end implies tris2[k]
            == #[trigger] tris1[k] by {
            assert(n.start <= k < n.end);
        }
        assert forall|k: int| nodes1[r].start <= k < nodes1[r].end implies tris2[k]
            == #[trigger] tris1[k] by {
            assert(n.start <= k < n.end);
        }
        lemma_tree_wf_frame(nodes1, tris1, nodes2, tris2, l);
        lemma_tree_wf_frame(nodes1, tris1, nodes2, tris2, r);
    }
}

impl Bvh {
    /// Well-formedness: the root covers the whole triangle list and every
    /// coordinate is in range.
    pub open spec fn wf(&self) -> bool {
        &&& (self.root as int) < self.nodes@.len()
        &&& tree_wf(self.nodes@, self.tris@, self.root as int)
        &&& self.nodes@[self.root as int].start == 0
        &&& self.nodes@[self.root as int].end == self.tris@.len()
        &&& forall|j: int| 0 <= j < self.tris@.len() ==> tri_in_range(#[trigger] self.tris@[j]@)
    }

    /// Number of triangles indexed by the hierarchy.
    pub open spec fn num_tris(&self) -> int {
        self.tris@.len() as int
    }

    /// The indexed triangles as a sequence of models.
    pub open spec fn models(&self) -> Seq<Tri3i> {
        views_of(self.tris@)
    }

    /// Every triangle's box lies inside the root's box.
    pub proof fn lemma_root_encloses(&self)
        requires
            self.wf(),
        ensures
            forall|j: int|
                0 <= j < self.tris@.len() ==> box_in_box(
                    spec_tri_box(#[trigger] self.tris@[j]@),
                    self.nodes@[self.root as int].bb@,
                ),
    {
    }

    /// Build the hierarchy over a non-empty triangle list; an empty list is
    /// a malformed-geometry fault and is rejected.
    pub fn build(input: &Vec<Triangle>) -> (r: Option<Bvh>)
        requires
            forall|j: int| 0 <= j < input@.len() ==> tri_in_range(#[trigger] input@[j]@),
            input@.len() <= 0x100_0000,
        ensures
            r is Some <==> input@.len() > 0,
            r is Some ==> r->0.wf() && r->0.tris@.to_multiset() == input@.to_multiset()
                && r->0.tris@.len() == input@.len(),
    {
        if input.len() == 0 {
            return None;
        }
        let mut tris: Vec<Triangle> = Vec::new();
        let mut j: usize = 0;
        while j < input.len()
            invariant
                0 <= j <= input@.len(),
                tris@ == input@.subrange(0, j as int),
            decreases input@.len() - j,
        {
            tris.push(input[j]);
            proof {
                assert(tris@ =~= input@.subrange(0, j as int + 1));
            }
            j = j + 1;
        }
        proof {
            assert(tris@ =~= input@);
        }
        let n = tris.len();
        let mut nodes: Vec<BvhNode> = Vec::new();
        let root = build_range(&mut tris, 0, n, &mut nodes);
        proof {
            assert(tris@.subrange(0, tris@.len() as int) =~= tris@);
            assert(input@.subrange(0, input@.len() as int) =~= input@);
        }
        Some(Bvh { tris, nodes, root })
    }
}

/// Lists that hold the same triangles hold the same triangle models.
pub proof fn lemma_views_multiset(s1: Seq<Triangle>, s2: Seq<Triangle>)
    requires
        s1.to_multiset() == s2.to_multiset(),
    ensures
        views_of(s1).to_multiset() == views_of(s2).to_multiset(),
    decreases s1.len(),
{
    if s1.len() == 0 {
        assert(s1.to_multiset().len() == s1.len());
        assert(s2.to_multiset().len() == s2.len());
        assert(s2.len() == 0);
        assert(views_of(s1) =~= views_of(s2));
    } else {
        let x = s1[0];
        assert(s1.contains(x));
        assert(s1.to_multiset().count(x) > 0);
        assert(s2.to_multiset().count(x) > 0);
        assert(s2.contains(x));
        let i = choose|i: int| 0 <= i < s2.len() && s2[i] == x;
        assert(s1.remove(0).to_multiset() =~= s1.to_multiset().remove(x));
        assert(s2.remove(i).to_multiset() =~= s2.to_multiset().remove(x));
        assert(s1.remove(0).to_multiset() == s2.remove(i).to_multiset());
        lemma_views_multiset(s1.remove(0), s2.remove(i));
        assert(views_of(s1.remove(0)) =~= views_of(s1).remove(0));
        assert(views_of(s2.remove(i)) =~= views_of(s2).remove(i));
        assert(views_of(s1).remove(0).to_multiset() =~= views_of(s1).to_multiset().remove(x@));
        assert(views_of(s2).remove(i).to_multiset() =~= views_of(s2).to_multiset().remove(x@));
        assert(views_of(s1).contains(x@));
        assert(views_of(s1).to_multiset().count(x@) > 0);
        assert(views_of(s2).contains(x@));
        assert(views_of(s2).to_multiset().count(x@) > 0);
        assert forall|t: Tri3i|
            views_of(s1).to_multiset().count(t) == views_of(s2).to_multiset().count(t) by {
            assert(views_of(s1).to_multiset().remove(x@).count(t) == views_of(
                s2,
            ).to_multiset().remove(x@).count(t));
        }
        assert(views_of(s1).to_multiset() =~= views_of(s2).to_multiset());
    }
}

/// Centroid proxy (three times the centroid) of a triangle along an axis.
fn centroid3(t: &Triangle, axis: u8) -> (r: i64)
    requires
        tri_in_range(t@),
    ensures
        -3 * COORD_MAX <= r <= 3 * COORD_MAX,
{
    if axis == 0 {
        t.a.x + t.b.x + t.c.x
    } else if axis == 1 {
        t.a.y + t.b.y + t.c.y
    } else {
        t.a.z + t.b.z + t.c.z
    }
}

/// Recursively build the subtree over `tris[start..end)`, appending its
/// nodes and returning the subtree root's index.
#[verifier::rlimit(100)]
fn build_range(
    tris: &mut Vec<Triangle>,
    start: usize,
    end: usize,
    nodes: &mut Vec<BvhNode>,
) -> (root: usize)
    requires
        start < end <= old(tris)@.len(),
        old(tris)@.len() <= 0x100_0000,
        forall|j: int| 0 <= j < old(tris)@.len() ==> tri_in_range(#[trigger] old(tris)@[j]@),
        old(nodes)@.len() + 2 * (end - start) <= 0x4000_0000,
    ensures
        final(tris)@.len() == old(tris)@.len(),
        forall|j: int| 0 <= j < final(tris)@.len() ==> tri_in_range(#[trigger] final(tris)@[j]@),
        final(tris)@.subrange(0, start as int) == old(tris)@.subrange(0, start as int),
        final(tris)@.subrange(end as int, final(tris)@.len() as int) == old(tris)@.subrange(
            end as int,
            old(tris)@.len() as int,
        ),
        final(tris)@.subrange(start as int, end as int).to_multiset() == old(tris)@.subrange(
            start as int,
            end as int,
        ).to_multiset(),
        final(nodes)@.len() > old(nodes)@.len(),
        final(nodes)@.len() <= old(nodes)@.len() + 2 * (end - start) - 1,
        forall|j: int| 0 <= j < old(nodes)@.len() ==> final(nodes)@[j] == #[trigger] old(
            nodes,
        )@[j],
        root as int == final(nodes)@.len() - 1,
        tree_wf(final(nodes)@, final(tris)@, root as int),
        final(nodes)@[root as int].start == start,
        final(nodes)@[root as int].end == end,
    decreases end - start,
{
    let ghost tris0 = tris@;
    if end - start == 1 {
        let t = tris[start];
        let bb = tri_box(&t);
        let node = BvhNode { bb, start, end, left: 0, right: 0, leaf: true };
        nodes.push(node);
        proof {
            assert(tris@.subrange(0, start as int) =~= tris0.subrange(0, start as int));
        }
        return nodes.len() - 1;
    }
    // Choose the axis of greatest centroid extent.
    let mut lo0: i64 = 3 * COORD_MAX;
    let mut hi0: i64 = -3 * COORD_MAX;
    let mut lo1: i64 = 3 * COORD_MAX;
    let mut hi1: i64 = -3 * COORD_MAX;
    let mut lo2: i64 = 3 * COORD_MAX;
    let mut hi2: i64 = -3 * COORD_MAX;
    let mut k: usize = start;
    while k < end
        invariant
            start <= k <= end,
            end <= tris@.len(),
            tris@ == tris0,
            forall|j: int| 0 <= j < tris@.len() ==> tri_in_range(#[trigger] tris@[j]@),
            -3 * COORD_MAX <= lo0 <= 3 * COORD_MAX,
            -3 * COORD_MAX <= hi0 <= 3 * COORD_MAX,
            -3 * COORD_MAX <= lo1 <= 3 * COORD_MAX,
            -3 * COORD_MAX <= hi1 <= 3 * COORD_MAX,
            -3 * COORD_MAX <= lo2 <= 3 * COORD_MAX,
            -3 * COORD_MAX <= hi2 <= 3 * COORD_MAX,
        decreases end - k,
    {
        let t = tris[k];
        let c0 = centroid3(&t, 0);
        let c1 = centroid3(&t, 1);
        let c2 = centroid3(&t, 2);
        if c0 < lo0 {
            lo0 = c0;
        }
        if c0 > hi0 {
            hi0 = c0;
        }
        if c1 < lo1 {
            lo1 = c1;
        }
        if c1 > hi1 {
            hi1 = c1;
        }
        if c2 < lo2 {
            lo2 = c2;
        }
        if c2 > hi2 {
            hi2 = c2;
        }
        k = k + 1;
    }
    let e0 = hi0 - lo0;
    let e1 = hi1 - lo1;
    let e2 = hi2 - lo2;
    let axis: u8 = if e0 >= e1 && e0 >= e2 {
        0
    } else if e1 >= e2 {
        1
    } else {
        2
    };
    let thr2: i64 = if axis == 0 {
        lo0 + hi0
    } else if axis == 1 {
        lo1 + hi1
    } else {
        lo2 + hi2
    };
    // Partition by centroid against the box midpoint, keeping the original
    // order on each side so that construction is reproducible.
    let mut less: Vec<Triangle> = Vec::new();
    let mut geq: Vec<Triangle> = Vec::new();
    let mut k: usize = start;
    while k < end
        invariant
            start <= k <= end,
            end <= tris@.len(),
            tris@ == tris0,
            -6 * COORD_MAX <= thr2 <= 6 * COORD_MAX,
            forall|j: int| 0 <= j < tris@.len() ==> tri_in_range(#[trigger] tris@[j]@),
            less@.len() + geq@.len() == k - start,
            less@.to_multiset().add(geq@.to_multiset()) == tris@.subrange(
                start as int,
                k as int,
            ).to_multiset(),
            forall|j: int| 0 <= j < less@.len() ==> tri_in_range(#[trigger] less@[j]@),
            forall|j: int| 0 <= j < geq@.len() ==> tri_in_range(#[trigger] geq@[j]@),
        decreases end - k,
    {
        let t = tris[k];
        let c = centroid3(&t, axis);
        let ghost pre = tris@.subrange(start as int, k as int);
        proof {
            assert(tris@.subrange(start as int, k as int + 1) =~= pre.push(tris@[k as int]));
        }
        if 2 * c < thr2 {
            less.push(t);
        } else {
            geq.push(t);
        }
        proof {
            assert(less@.to_multiset().add(geq@.to_multiset()) =~= tris@.subrange(
                start as int,
                k as int + 1,
            ).to_multiset());
        }
        k = k + 1;
    }
    let nl = less.len();
    let mid: usize = if nl == 0 || nl == end - start {
        // Degenerate partition: fall back to an even split by count.
        proof {
            assert(tris@.subrange(0, start as int) =~= tris0.subrange(0, start as int));
            assert(tris@.subrange(end as int, tris@.len() as int) =~= tris0.subrange(
                end as int,
                tris0.len() as int,
            ));
            assert(tris@.subrange(start as int, end as int) =~= tris0.subrange(
                start as int,
                end as int,
            ));
        }
        start + (end - start) / 2
    } else {
        let ghost before = tris@;
        let mut w: usize = 0;
        while w < nl
            invariant
                0 <= w <= nl,
                nl == less@.len(),
                start + nl <= end <= tris@.len(),
                tris@.len() == before.len(),
                forall|j: int| 0 <= j < tris@.len() && !(start <= j < start + w) ==> tris@[j]
                    == #[trigger] before[j],
                forall|j: int| 0 <= j < w ==> tris@[start + j] == #[trigger] less@[j],
            decreases nl - w,
        {
            tris[start + w] = less[w];
            w = w + 1;
        }
        let ghost after_less = tris@;
        let ng = geq.len();
        let mut w: usize = 0;
        while w < ng
            invariant
                0 <= w <= ng,
                ng == geq@.len(),
                nl == less@.len(),
                start + nl + ng == end,
                end <= tris@.len(),
                tris@.len() == after_less.len(),
                forall|j: int| 0 <= j < tris@.len() && !(start + nl <= j < start + nl + w)
                    ==> tris@[j] == #[trigger] after_less[j],
                forall|j: int| 0 <= j < w ==> tris@[start + nl + j] == #[trigger] geq@[j],
            decreases ng - w,
        {
            tris[start + nl + w] = geq[w];
            w = w + 1;
        }
        proof {
            assert(tris@.subrange(start as int, end as int) =~= less@ + geq@);
            lemma_multiset_commutative(less@, geq@);
            assert(tris0.subrange(start as int, end as int) =~= tris0.subrange(
                start as int,
                end as int,
            ));
            assert(tris@.subrange(start as int, end as int).to_multiset() == tris0.subrange(
                start as int,
                end as int,
            ).to_multiset());
            assert(tris@.subrange(0, start as int) =~= tris0.subrange(0, start as int));
            assert(tris@.subrange(end as int, tris@.len() as int) =~= tris0.subrange(
                end as int,
                tris0.len() as int,
            ));
            assert forall|j: int| 0 <= j < tris@.len() implies tri_in_range(
                #[trigger] tris@[j]@,
            ) by {
                if start as int <= j < start as int + nl {
                    assert(tris@[j] == less@[j - start]);
                } else if start as int + nl <= j < end {
                    assert(tris@[j] == geq@[j - start - nl]);
                } else {
                    assert(tris@[j] == tris0[j]);
                }
            }
        }
        start + nl
    };
    let ghost tris1 = tris@;
    let li = build_range(tris, start, mid, nodes);
    let ghost tris2 = tris@;
    let ghost nodes2 = nodes@;
    let ri = build_range(tris, mid, end, nodes);
    let ghost tris3 = tris@;
    let ghost nodes3 = nodes@;
    proof {
        // The right build left the left child's triangle range unchanged.
        assert forall|kk: int| nodes2[li as int].start <= kk < nodes2[li as int].end
            implies tris3[kk] == #[trigger] tris2[kk] by {
            assert(tris3.subrange(0, mid as int)[kk] == tris2.subrange(0, mid as int)[kk]);
            assert(tris3.subrange(0, mid as int)[kk] == tris3[kk]);
            assert(tris2.subrange(0, mid as int)[kk] == tris2[kk]);
        }
        lemma_tree_wf_frame(nodes2, tris2, nodes3, tris3, li as int);
    }
    let lb = nodes[li].bb;
    let rb = nodes[ri].bb;
    let bb = box_union_e(&lb, &rb);
    let node = BvhNode { bb, start, end, left: li, right: ri, leaf: false };
    nodes.push(node);
    let root = nodes.len() - 1;
    proof {
        let nodes4 = nodes@;
        let n = nodes4[root as int];
        lemma_tree_wf_frame(nodes3, tris3, nodes4, tris3, li as int);
        lemma_tree_wf_frame(nodes3, tris3, nodes4, tris3, ri as int);
        // Every triangle box of the range fits in the union box.
        assert forall|kk: int| start <= kk < end implies box_in_box(
            spec_tri_box(#[trigger] tris3[kk]@),
            n.bb@,
        ) by {
            if kk < mid as int {
                assert(box_in_box(spec_tri_box(tris3[kk]@), nodes4[li as int].bb@));
            } else {
                assert(box_in_box(spec_tri_box(tris3[kk]@), nodes4[ri as int].bb@));
            }
        }
        assert(tree_wf(nodes4, tris3, root as int));
        // Element-level bookkeeping across the two recursive builds.
        let len = tris3.len() as int;
        assert forall|j: int| 0 <= j < start as int implies tris3[j] == tris0[j] by {
            assert(tris3.subrange(0, mid as int)[j] == tris2.subrange(0, mid as int)[j]);
            assert(tris2.subrange(0, start as int)[j] == tris1.subrange(0, start as int)[j]);
            assert(tris1.subrange(0, start as int)[j] == tris0.subrange(0, start as int)[j]);
        }
        assert(tris3.subrange(0, start as int) =~= tris0.subrange(0, start as int));
        assert forall|j: int| end as int <= j < len implies tris3[j] == tris0[j] by {
            assert(tris3.subrange(end as int, len)[j - end] == tris2.subrange(end as int, len)[j
                - end]);
            assert(tris2.subrange(mid as int, len)[j - mid] == tris1.subrange(mid as int, len)[j
                - mid]);
            assert(tris1.subrange(end as int, len)[j - end] == tris0.subrange(end as int, len)[j
                - end]);
        }
        assert(tris3.subrange(end as int, len) =~= tris0.subrange(end as int, len));
        // Multiset of the built range is preserved.
        assert forall|j: int| start as int <= j < mid as int implies tris3[j] == tris2[j] by {
            assert(tris3.subrange(0, mid as int)[j] == tris2.subrange(0, mid as int)[j]);
        }
        assert(tris3.subrange(start as int, mid as int) =~= tris2.subrange(
            start as int,
            mid as int,
        ));
        assert forall|j: int| mid as int <= j < end as int implies tris2[j] == tris1[j] by {
            assert(tris2.subrange(mid as int, len)[j - mid] == tris1.subrange(mid as int, len)[j
                - mid]);
        }
        assert(tris2.subrange(mid as int, end as int) =~= tris1.subrange(mid as int, end as int));
        assert(tris2.subrange(start as int, mid as int).to_multiset() == tris1.subrange(
            start as int,
            mid as int,
        ).to_multiset());
        assert(tris3.subrange(mid as int, end as int).to_multiset() == tris2.subrange(
            mid as int,
            end as int,
        ).to_multiset());
        assert(tris3.subrange(start as int, end as int) =~= tris3.subrange(start as int, mid as int)
            + tris3.subrange(mid as int, end as int));
        assert(tris1.subrange(start as int, end as int) =~= tris1.subrange(start as int, mid as int)
            + tris1.subrange(mid as int, end as int));
        lemma_multiset_commutative(
            tris3.subrange(start as int, mid as int),
            tris3.subrange(mid as int, end as int),
        );
        lemma_multiset_commutative(
            tris1.subrange(start as int, mid as int),
            tris1.subrange(mid as int, end as int),
        );
        assert(tris3.subrange(start as int, end as int).to_multiset() == tris1.subrange(
            start as int,
            end as int,
        ).to_multiset());
        assert(tris1.subrange(start as int, end as int).to_multiset() == tris0.subrange(
            start as int,
            end as int,
        ).to_multiset());
    }
    root
}


/// A reported segment crossing: the triangle, its index, and its quantized
/// entry time.
#[derive(Clone, Copy, PartialEq, Eq, Structural, Debug)]
pub struct SegHit {
    pub idx: usize,
    pub tri: Triangle,
    pub key: i128,
}

/// The hit names one of the listed triangles, really crossed, with its key.
pub open spec fn seg_hit_valid(h: SegHit, tris: Seq<Triangle>, p: Vec3i, q: Vec3i) -> bool {
    &&& 0 <= h.key <= KEY_SCALE
    &&& 0 <= h.idx < tris.len()
    &&& tris[h.idx as int] == h.tri
    &&& seg_tri_hit(p, q, h.tri@)
    &&& h.key == hit_key(p, q, h.tri@)
}

/// What a nearest-crossing query returns: no triangle is crossed, or a
/// crossed triangle whose entry time is least among all crossings, ties
/// going to the lowest index.  This pins the result completely.
pub open spec fn nearest_result(
    r: Option<SegHit>,
    tris: Seq<Triangle>,
    p: Vec3i,
    q: Vec3i,
) -> bool {
    match r {
        None => forall|j: int| 0 <= j < tris.len() ==> !seg_tri_hit(p, q, #[trigger] tris[j]@),
        Some(h) => seg_hit_valid(h, tris, p, q) && forall|j: int|
            0 <= j < tris.len() && seg_tri_hit(p, q, #[trigger] tris[j]@) ==> (h.key < hit_key(
                p,
                q,
                tris[j]@,
            ) || (h.key == hit_key(p, q, tris[j]@) && h.idx <= j)),
    }
}

/// Two nearest-crossing results over the same input agree on whether there
/// is a crossing and on the entry time.
pub proof fn lemma_nearest_agrees(
    r1: Option<SegHit>,
    r2: Option<SegHit>,
    tris: Seq<Triangle>,
    p: Vec3i,
    q: Vec3i,
)
    requires
        nearest_result(r1, tris, p, q),
        nearest_result(r2, tris, p, q),
    ensures
        r1 == r2,
{
    if r1 is Some {
        let h1 = r1->0;
        assert(seg_tri_hit(p, q, tris[h1.idx as int]@));
        assert(r2 is Some);
        let h2 = r2->0;
        assert(seg_tri_hit(p, q, tris[h2.idx as int]@));
        assert(h1.key == h2.key);
        assert(h1.idx == h2.idx);
    } else {
        if r2 is Some {
            let h2 = r2->0;
            assert(!seg_tri_hit(p, q, tris[h2.idx as int]@));
        }
    }
}

/// Nearest crossing by exhaustive scan over the triangle list.
pub fn nearest_hit_brute(tris: &Vec<Triangle>, p: &Vec3, q: &Vec3) -> (r: Option<SegHit>)
    requires
        forall|j: int| 0 <= j < tris@.len() ==> tri_in_range(#[trigger] tris@[j]@),
        in_coord_range(p@),
        in_coord_range(q@),
    ensures
        nearest_result(r, tris@, p@, q@),
{
    let mut best: Option<SegHit> = None;
    let mut j: usize = 0;
    while j < tris.len()
        invariant
            0 <= j <= tris@.len(),
            forall|k: int| 0 <= k < tris@.len() ==> tri_in_range(#[trigger] tris@[k]@),
            in_coord_range(p@),
            in_coord_range(q@),
            match best {
                None => forall|k: int|
                    0 <= k < j as int ==> !seg_tri_hit(p@, q@, #[trigger] tris@[k]@),
                Some(h) => seg_hit_valid(h, tris@, p@, q@) && (h.idx as int) < j as int
                    && forall|k: int|
                    0 <= k < j as int && seg_tri_hit(p@, q@, #[trigger] tris@[k]@) ==> (h.key
                        < hit_key(p@, q@, tris@[k]@) || (h.key == hit_key(p@, q@, tris@[k]@)
                        && h.idx <= k)),
            },
        decreases tris@.len() - j,
    {
        let t = tris[j];
        match seg_tri_test(p, q, &t) {
            Some(key) => {
                let replace = match best {
                    None => true,
                    Some(b) => key < b.key,
                };
                if replace {
                    best = Some(SegHit { idx: j, tri: t, key });
                }
            },
            None => {},
        }
        j = j + 1;
    }
    best
}

/// Walk the subtree at `i`, folding its crossings into `best`.
fn query_rec(
    nodes: &Vec<BvhNode>,
    tris: &Vec<Triangle>,
    i: usize,
    p: &Vec3,
    q: &Vec3,
    sbox: &Aabb,
    best: Option<SegHit>,
) -> (r: Option<SegHit>)
    requires
        tree_wf(nodes@, tris@, i as int),
        forall|j: int| 0 <= j < tris@.len() ==> tri_in_range(#[trigger] tris@[j]@),
        in_coord_range(p@),
        in_coord_range(q@),
        sbox@ == spec_seg_box(p@, q@),
        best is Some ==> seg_hit_valid(best->0, tris@, p@, q@) && (best->0.idx as int) < nodes@[
            i as int
        ].start,
    ensures
        r is Some ==> seg_hit_valid(r->0, tris@, p@, q@) && (r->0.idx as int) < nodes@[
            i as int
        ].end,
        best is Some ==> r is Some && r->0.key <= best->0.key,
        best is Some && r != best ==> r is Some && r->0.key < best->0.key,
        r is None ==> best is None,
        r is Some ==> r == best || nodes@[i as int].start <= (r->0.idx as int) < nodes@[
            i as int
        ].end,
        forall|j: int|
            nodes@[i as int].start <= j < nodes@[i as int].end && seg_tri_hit(
                p@,
                q@,
                #[trigger] tris@[j]@,
            ) ==> r is Some && (r->0.key < hit_key(p@, q@, tris@[j]@) || (r->0.key == hit_key(
                p@,
                q@,
                tris@[j]@,
            ) && r->0.idx <= j)),
    decreases i,
{
    let n = nodes[i];
    if !boxes_overlap_e(sbox, &n.bb) {
        proof {
            assert forall|j: int|
                n.start <= j < n.end implies !seg_tri_hit(p@, q@, #[trigger] tris@[j]@) by {
                if seg_tri_hit(p@, q@, tris@[j]@) {
                    lemma_overlap_mono(spec_seg_box(p@, q@), spec_tri_box(tris@[j]@), n.bb@);
                }
            }
        }
        return best;
    }
    if n.leaf {
        proof {
            assert(tree_wf(nodes@, tris@, i as int));
            assert(n.end == n.start + 1);
        }
        let t = tris[n.start];
        match seg_tri_test(p, q, &t) {
            Some(key) => {
                let replace = match best {
                    None => true,
                    Some(b) => key < b.key,
                };
                if replace {
                    Some(SegHit { idx: n.start, tri: t, key })
                } else {
                    best
                }
            },
            None => best,
        }
    } else {
        let r1 = query_rec(nodes, tris, n.left, p, q, sbox, best);
        let r2 = query_rec(nodes, tris, n.right, p, q, sbox, r1);
        proof {
            let l = n.left as int;
            let rr = n.right as int;
            assert(tree_wf(nodes@, tris@, i as int));
            assert(nodes@[l].start == n.start);
            assert(nodes@[l].end == nodes@[rr].start);
            assert(nodes@[rr].end == n.end);
            assert(tree_wf(nodes@, tris@, rr));
            assert(nodes@[rr].start < nodes@[rr].end);
            assert(tree_wf(nodes@, tris@, l));
            assert(nodes@[l].start < nodes@[l].end);
        }
        r2
    }
}

impl Bvh {
    /// Nearest crossing of the segment from `p` to `q`, found by
    /// descending only into nodes whose box the segment's bounds meet.
    pub fn nearest_hit(&self, p: &Vec3, q: &Vec3) -> (r: Option<SegHit>)
        requires
            self.wf(),
            in_coord_range(p@),
            in_coord_range(q@),
        ensures
            nearest_result(r, self.tris@, p@, q@),
    {
        let sbox = seg_box(p, q);
        query_rec(&self.nodes, &self.tris, self.root, p, q, &sbox, None)
    }
}

/// The one value every nearest-crossing query returns.
pub open spec fn spec_nearest(tris: Seq<Triangle>, p: Vec3i, q: Vec3i) -> Option<SegHit> {
    choose|r: Option<SegHit>| nearest_result(r, tris, p, q)
}

/// A result that satisfies the nearest-crossing contract is `spec_nearest`.
pub proof fn lemma_nearest_pins(r: Option<SegHit>, tris: Seq<Triangle>, p: Vec3i, q: Vec3i)
    requires
        nearest_result(r, tris, p, q),
    ensures
        r == spec_nearest(tris, p, q),
{
    assert(exists|x: Option<SegHit>| nearest_result(x, tris, p, q));
    assert(nearest_result(spec_nearest(tris, p, q), tris, p, q));
    lemma_nearest_agrees(r, spec_nearest(tris, p, q), tris, p, q);
}

/// A proximity candidate: a triangle and the squared distance from the
/// query point to its bounding box.
#[derive(Clone, Copy, PartialEq, Eq, Structural, Debug)]
pub struct ProxHit {
    pub idx: usize,
    pub tri: Triangle,
    pub dist2: i64,
}

pub open spec fn prox_hit_valid(h: ProxHit, tris: Seq<Triangle>, c: Vec3i) -> bool {
    &&& 0 <= h.dist2
    &&& 0 <= h.idx < tris.len()
    &&& tris[h.idx as int] == h.tri
    &&& h.dist2 == box_dist2(spec_tri_box(h.tri@), c)
}

/// What a proximity query returns: no triangle's box is within `rad`, or a
/// triangle whose box is within `rad` and closest among all boxes, ties
/// going to the lowest index.  This pins the result completely.
pub open spec fn prox_result(r: Option<ProxHit>, tris: Seq<Triangle>, c: Vec3i, rad: int) -> bool {
    match r {
        None => forall|j: int|
            0 <= j < tris.len() ==> box_dist2(spec_tri_box(#[trigger] tris[j]@), c) > rad * rad,
        Some(h) => prox_hit_valid(h, tris, c) && h.dist2 <= rad * rad && forall|j: int|
            0 <= j < tris.len() ==> (box_dist2(spec_tri_box(#[trigger] tris[j]@), c) > h.dist2 || (
            box_dist2(spec_tri_box(tris[j]@), c) == h.dist2 && h.idx <= j)),
    }
}

/// Two proximity results over the same input are the same.
pub proof fn lemma_prox_agrees(
    r1: Option<ProxHit>,
    r2: Option<ProxHit>,
    tris: Seq<Triangle>,
    c: Vec3i,
    rad: int,
)
    requires
        prox_result(r1, tris, c, rad),
        prox_result(r2, tris, c, rad),
    ensures
        r1 == r2,
{
    if r1 is Some {
        let h1 = r1->0;
        assert(box_dist2(spec_tri_box(tris[h1.idx as int]@), c) == h1.dist2);
        assert(r2 is Some);
        let h2 = r2->0;
        assert(box_dist2(spec_tri_box(tris[h2.idx as int]@), c) == h2.dist2);
        assert(h1.dist2 == h2.dist2);
        assert(h1.idx == h2.idx);
    } else {
        if r2 is Some {
            let h2 = r2->0;
            assert(box_dist2(spec_tri_box(tris[h2.idx as int]@), c) <= rad * rad);
        }
    }
}

/// The one value every proximity query returns.
pub open spec fn spec_prox(tris: Seq<Triangle>, c: Vec3i, rad: int) -> Option<ProxHit> {
    choose|r: Option<ProxHit>| prox_result(r, tris, c, rad)
}

/// A result that satisfies the proximity contract is `spec_prox`.
pub proof fn lemma_prox_pins(r: Option<ProxHit>, tris: Seq<Triangle>, c: Vec3i, rad: int)
    requires
        prox_result(r, tris, c, rad),
    ensures
        r == spec_prox(tris, c, rad),
{
    assert(exists|x: Option<ProxHit>| prox_result(x, tris, c, rad));
    assert(prox_result(spec_prox(tris, c, rad), tris, c, rad));
    lemma_prox_agrees(r, spec_prox(tris, c, rad), tris, c, rad);
}

/// Walk the subtree at `i`, folding its proximity candidates into `best`.
fn prox_rec(
    nodes: &Vec<BvhNode>,
    tris: &Vec<Triangle>,
    i: usize,
    c: &Vec3,
    rad: i64,
    best: Option<ProxHit>,
) -> (r: Option<ProxHit>)
    requires
        tree_wf(nodes@, tris@, i as int),
        forall|j: int| 0 <= j < tris@.len() ==> tri_in_range(#[trigger] tris@[j]@),
        in_coord_range(c@),
        0 <= rad <= COORD_MAX,
        best is Some ==> prox_hit_valid(best->0, tris@, c@) && best->0.dist2 <= rad * rad && (
        best->0.idx as int) < nodes@[i as int].start,
    ensures
        r is Some ==> prox_hit_valid(r->0, tris@, c@) && r->0.dist2 <= rad * rad && (
        r->0.idx as int) < nodes@[i as int].end,
        best is Some ==> r is Some && r->0.dist2 <= best->0.dist2,
        best is Some && r != best ==> r is Some && r->0.dist2 < best->0.dist2,
        r is None ==> best is None,
        r is Some ==> r == best || nodes@[i as int].start <= (r->0.idx as int) < nodes@[
            i as int
        ].end,
        forall|j: int|
            nodes@[i as int].start <= j < nodes@[i as int].end ==> (match r {
                None => box_dist2(spec_tri_box(#[trigger] tris@[j]@), c@) > rad * rad,
                Some(h) => box_dist2(spec_tri_box(#[trigger] tris@[j]@), c@) > h.dist2 || (
                box_dist2(spec_tri_box(tris@[j]@), c@) == h.dist2 && h.idx <= j),
            }),
    decreases i,
{
    proof {
        crate::math::lemma_mul_bound(rad as int, rad as int, COORD_MAX as int, COORD_MAX as int);
    }
    let n = nodes[i];
    let nd = box_dist2_e(&n.bb, c);
    if nd > rad * rad {
        proof {
            assert forall|j: int|
                n.start <= j < n.end implies box_dist2(spec_tri_box(#[trigger] tris@[j]@), c@)
                > rad * rad by {
                lemma_box_dist2_mono(spec_tri_box(tris@[j]@), n.bb@, c@);
            }
        }
        return best;
    }
    if n.leaf {
        proof {
            assert(tree_wf(nodes@, tris@, i as int));
            assert(n.end == n.start + 1);
        }
        let t = tris[n.start];
        let tb = tri_box(&t);
        let d2 = box_dist2_e(&tb, c);
        if d2 <= rad * rad {
            let replace = match best {
                None => true,
                Some(b) => d2 < b.dist2,
            };
            if replace {
                Some(ProxHit { idx: n.start, tri: t, dist2: d2 })
            } else {
                best
            }
        } else {
            best
        }
    } else {
        let r1 = prox_rec(nodes, tris, n.left, c, rad, best);
        let r2 = prox_rec(nodes, tris, n.right, c, rad, r1);
        proof {
            let l = n.left as int;
            let rr = n.right as int;
            assert(tree_wf(nodes@, tris@, i as int));
            assert(nodes@[l].start == n.start);
            assert(nodes@[l].end == nodes@[rr].start);
            assert(nodes@[rr].end == n.end);
            assert(tree_wf(nodes@, tris@, rr));
            assert(nodes@[rr].start < nodes@[rr].end);
            assert(tree_wf(nodes@, tris@, l));
            assert(nodes@[l].start < nodes@[l].end);
        }
        r2
    }
}

impl Bvh {
    /// Nearest triangle within `rad` of the point `c`, found by the same
    /// descend-and-prune walk.  Distance is measured to the triangle's
    /// axis-aligned bounds, not to its surface: a conservative metric that
    /// can report a triangle whose box touches the sphere while its surface
    /// lies farther away.  The contract states exactly this metric.
    pub fn nearest_contact(&self, c: &Vec3, rad: i64) -> (r: Option<ProxHit>)
        requires
            self.wf(),
            in_coord_range(c@),
            0 <= rad <= COORD_MAX,
        ensures
            prox_result(r, self.tris@, c@, rad as int),
    {
        prox_rec(&self.nodes, &self.tris, self.root, c, rad, None)
    }
}

} // verus!
