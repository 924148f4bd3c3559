//! The bounding-volume hierarchy: a binary tree over the scene's
//! primitives, in arena style — the tree stores indices into a vector
//! of primitives, so building it sorts an index array instead of
//! moving objects.
//!
//! Construction picks a random split axis, sorts the index subrange by
//! the minimum bound of each primitive's box along that axis, and
//! splits at the midpoint. Traversal rejects a subtree whose box the
//! ray misses, and tests the right child only below the left child's
//! hit parameter, so the closer surface wins.

use crate::aabb::{aabb_contains_s, aabb_hit_s, aabb_ordered_s, AABB};
use crate::hittable::HitRecord;
use crate::interval::Interval;
use crate::quad::{quad_hit_s, Quad};
use crate::ray::Ray;
use crate::rng::Sampler;
use crate::sphere::{sphere_hit_s, Sphere};
use vstd::prelude::*;

verus! {

/// A primitive surface: the leaves of every scene structure. The two
/// decorators wrap a child primitive in a rigid motion.
pub enum Prim {
    Sphere(Sphere),
    Quad(Quad),
    Translate(crate::translate::Translate),
    RotateY(crate::translate::RotateY),
}

pub open spec fn prim_hit_s(p: Prim, r: Ray, lo: int, hi: int) -> Option<HitRecord>
    decreases p,
{
    match p {
        Prim::Sphere(s) => sphere_hit_s(s, r, lo, hi),
        Prim::Quad(q) => quad_hit_s(q, r, lo, hi),
        Prim::Translate(t) => crate::translate::translate_hit_s(t, r, lo, hi),
        Prim::RotateY(ry) => crate::translate::rotate_y_hit_s(ry, r, lo, hi),
    }
}

pub open spec fn prim_bbox_s(p: Prim) -> AABB {
    match p {
        Prim::Sphere(s) => s.bbox,
        Prim::Quad(q) => q.bbox,
        Prim::Translate(t) => t.bbox,
        Prim::RotateY(ry) => ry.bbox,
    }
}

pub open spec fn prim_mat_s(p: Prim) -> usize
    decreases p,
{
    match p {
        Prim::Sphere(s) => s.mat,
        Prim::Quad(q) => q.mat,
        Prim::Translate(t) => prim_mat_s(*t.child),
        Prim::RotateY(ry) => prim_mat_s(*ry.child),
    }
}

impl Prim {
    pub fn hit(&self, r: &Ray, ray_t: Interval) -> (res: Option<HitRecord>)
        ensures
            res == prim_hit_s(*self, *r, ray_t.min as int, ray_t.max as int),
        decreases *self,
    {
        match self {
            Prim::Sphere(s) => s.hit(r, ray_t),
            Prim::Quad(q) => q.hit(r, ray_t),
            Prim::Translate(t) => {
                let moved = Ray::new(r.origin().sub(t.offset), *r.direction(), r.time());
                match t.child.hit(&moved, ray_t) {
                    Some(h) => Some(
                        HitRecord {
                            p: h.p.add(t.offset),
                            normal: h.normal,
                            mat: h.mat,
                            t: h.t,
                            front_face: h.front_face,
                            u: h.u,
                            v: h.v,
                        },
                    ),
                    None => None,
                }
            },
            Prim::RotateY(ry) => {
                let orig = *r.origin();
                let dir = *r.direction();
                let s = ry.sin_theta;
                let c = ry.cos_theta;
                let rotated = Ray::new(
                    crate::vec3::Vec3 {
                        x: crate::fx::fx_sub(crate::fx::fx_mul(c, orig.x), crate::fx::fx_mul(s, orig.z)),
                        y: orig.y,
                        z: crate::fx::fx_add(crate::fx::fx_mul(s, orig.x), crate::fx::fx_mul(c, orig.z)),
                    },
                    crate::vec3::Vec3 {
                        x: crate::fx::fx_sub(crate::fx::fx_mul(c, dir.x), crate::fx::fx_mul(s, dir.z)),
                        y: dir.y,
                        z: crate::fx::fx_add(crate::fx::fx_mul(s, dir.x), crate::fx::fx_mul(c, dir.z)),
                    },
                    r.time(),
                );
                match ry.child.hit(&rotated, ray_t) {
                    Some(h) => Some(
                        HitRecord {
                            p: crate::vec3::Vec3 {
                                x: crate::fx::fx_add(
                                    crate::fx::fx_mul(c, h.p.x),
                                    crate::fx::fx_mul(s, h.p.z),
                                ),
                                y: h.p.y,
                                z: crate::fx::fx_sub(
                                    crate::fx::fx_mul(c, h.p.z),
                                    crate::fx::fx_mul(s, h.p.x),
                                ),
                            },
                            normal: crate::vec3::Vec3 {
                                x: crate::fx::fx_add(
                                    crate::fx::fx_mul(c, h.normal.x),
                                    crate::fx::fx_mul(s, h.normal.z),
                                ),
                                y: h.normal.y,
                                z: crate::fx::fx_sub(
                                    crate::fx::fx_mul(c, h.normal.z),
                                    crate::fx::fx_mul(s, h.normal.x),
                                ),
                            },
                            mat: h.mat,
                            t: h.t,
                            front_face: h.front_face,
                            u: h.u,
                            v: h.v,
                        },
                    ),
                    None => None,
                }
            },
        }
    }

    pub fn bounding_box(&self) -> (b: AABB)
        ensures
            b == prim_bbox_s(*self),
    {
        match self {
            Prim::Sphere(s) => s.bounding_box(),
            Prim::Quad(q) => q.bounding_box(),
            Prim::Translate(t) => t.bbox,
            Prim::RotateY(ry) => ry.bbox,
        }
    }

    /// A structural copy.
    pub fn duplicate(&self) -> (r: Prim)
        ensures
            r == *self,
        decreases *self,
    {
        match self {
            Prim::Sphere(s) => Prim::Sphere(*s),
            Prim::Quad(q) => Prim::Quad(*q),
            Prim::Translate(t) => Prim::Translate(
                crate::translate::Translate {
                    child: Box::new(t.child.duplicate()),
                    offset: t.offset,
                    bbox: t.bbox,
                },
            ),
            Prim::RotateY(ry) => Prim::RotateY(
                crate::translate::RotateY {
                    child: Box::new(ry.child.duplicate()),
                    sin_theta: ry.sin_theta,
                    cos_theta: ry.cos_theta,
                    bbox: ry.bbox,
                },
            ),
        }
    }
}

/// The index tree. A leaf covers one primitive (a == b) or a pair.
pub enum Tree {
    Leaf { a: usize, b: usize, bbox: AABB },
    Branch { left: Box<Tree>, right: Box<Tree>, bbox: AABB },
}

pub open spec fn tree_bbox_s(t: Tree) -> AABB {
    match t {
        Tree::Leaf { bbox, .. } => bbox,
        Tree::Branch { bbox, .. } => bbox,
    }
}

/// Structural soundness of a tree over a primitive vector: indices in
/// range, boxes ordered, and every node's box containing the boxes of
/// everything below it.
pub open spec fn tree_wf(t: Tree, prims: Seq<Prim>) -> bool
    decreases t,
{
    match t {
        Tree::Leaf { a, b, bbox } => {
            &&& a < prims.len()
            &&& b < prims.len()
            &&& aabb_ordered_s(bbox)
            &&& aabb_contains_s(bbox, prim_bbox_s(prims[a as int]))
            &&& aabb_contains_s(bbox, prim_bbox_s(prims[b as int]))
        },
        Tree::Branch { left, right, bbox } => {
            &&& tree_wf(*left, prims)
            &&& tree_wf(*right, prims)
            &&& aabb_ordered_s(bbox)
            &&& aabb_contains_s(bbox, tree_bbox_s(*left))
            &&& aabb_contains_s(bbox, tree_bbox_s(*right))
        },
    }
}

/// The indices of the primitives a tree covers, in traversal order.
pub open spec fn tree_idxs(t: Tree) -> Seq<usize>
    decreases t,
{
    match t {
        Tree::Leaf { a, b, .. } => if a == b {
            seq![a]
        } else {
            seq![a, b]
        },
        Tree::Branch { left, right, .. } => tree_idxs(*left) + tree_idxs(*right),
    }
}

/// What the traversal computes: box test, left child, right child
/// narrowed below the left hit.
pub open spec fn tree_hit_s(t: Tree, prims: Seq<Prim>, r: Ray, lo: int, hi: int) -> Option<
    HitRecord,
>
    decreases t,
{
    match t {
        Tree::Leaf { a, b, bbox } => {
            if !aabb_hit_s(bbox, r, lo, hi) {
                None
            } else {
                match prim_hit_s(prims[a as int], r, lo, hi) {
                    Some(h1) => match prim_hit_s(prims[b as int], r, lo, h1.t as int) {
                        Some(h2) => Some(h2),
                        None => Some(h1),
                    },
                    None => prim_hit_s(prims[b as int], r, lo, hi),
                }
            }
        },
        Tree::Branch { left, right, bbox } => {
            if !aabb_hit_s(bbox, r, lo, hi) {
                None
            } else {
                match tree_hit_s(*left, prims, r, lo, hi) {
                    Some(h1) => match tree_hit_s(*right, prims, r, lo, h1.t as int) {
                        Some(h2) => Some(h2),
                        None => Some(h1),
                    },
                    None => tree_hit_s(*right, prims, r, lo, hi),
                }
            }
        },
    }
}

/// The linear reference scan: test each primitive in turn, always
/// narrowing the far bound to the closest hit so far.
pub open spec fn scan_hit_s(prims: Seq<Prim>, idxs: Seq<usize>, r: Ray, lo: int, hi: int) -> Option<
    HitRecord,
>
    decreases idxs.len(),
{
    if idxs.len() == 0 {
        None
    } else {
        let prev = scan_hit_s(prims, idxs.drop_last(), r, lo, hi);
        let cm = match prev {
            Some(h) => h.t as int,
            None => hi,
        };
        match prim_hit_s(prims[idxs.last() as int], r, lo, cm) {
            Some(h2) => Some(h2),
            None => prev,
        }
    }
}

/// A built hierarchy: the primitives it owns and the index tree.
pub struct BvhNode {
    pub prims: Vec<Prim>,
    pub tree: Tree,
}

pub open spec fn bvh_wf(n: BvhNode) -> bool {
    tree_wf(n.tree, n.prims@)
}

fn axis_min_key(prims: &Vec<Prim>, idx: usize, axis: u32) -> (k: i64)
    requires
        idx < prims@.len(),
    ensures
        k == crate::aabb::axis_iv_s(prim_bbox_s(prims@[idx as int]), axis as int).min,
{
    prims[idx].bounding_box().axis_interval(axis).min
}

/// Whether value v occurs in s within [start, end).
pub open spec fn range_has(s: Seq<usize>, start: int, end: int, v: usize) -> bool {
    exists|k: int| start <= k < end && #[trigger] s[k] == v
}

/// Swapping two entries inside the range preserves which values the
/// range holds.
proof fn lemma_swap_range_has(pre: Seq<usize>, post: Seq<usize>, start: int, end: int, i: int, j: int)
    requires
        0 <= start <= i < j < end <= pre.len(),
        post == pre.update(i, pre[j]).update(j, pre[i]),
    ensures
        forall|v: usize| range_has(post, start, end, v) == range_has(pre, start, end, v),
{
    assert forall|v: usize| range_has(post, start, end, v) == range_has(pre, start, end, v) by {
        if range_has(pre, start, end, v) {
            let k = choose|k: int| start <= k < end && pre[k] == v;
            if k == i {
                assert(post[j] == v);
            } else if k == j {
                assert(post[i] == v);
            } else {
                assert(post[k] == v);
            }
            assert(range_has(post, start, end, v));
        }
        if range_has(post, start, end, v) {
            let k = choose|k: int| start <= k < end && post[k] == v;
            if k == i {
                assert(pre[j] == v);
            } else if k == j {
                assert(pre[i] == v);
            } else {
                assert(pre[k] == v);
            }
            assert(range_has(pre, start, end, v));
        }
    }
}

/// Sort idxs[start..end) by the minimum bound along the axis
/// (insertion sort); the set of indices the range holds is unchanged,
/// and nothing outside the range moves.
fn sort_range(prims: &Vec<Prim>, idxs: &mut Vec<usize>, start: usize, end: usize, axis: u32)
    requires
        start <= end <= old(idxs)@.len(),
        forall|i: int| 0 <= i < old(idxs)@.len() ==> #[trigger] old(idxs)@[i] < prims@.len(),
    ensures
        final(idxs)@.len() == old(idxs)@.len(),
        forall|i: int| 0 <= i < final(idxs)@.len() ==> #[trigger] final(idxs)@[i] < prims@.len(),
        forall|i: int|
            0 <= i < final(idxs)@.len() && !(start <= i < end) ==> final(idxs)@[i] == old(
                idxs,
            )@[i],
        forall|v: usize|
            range_has(final(idxs)@, start as int, end as int, v) == range_has(
                old(idxs)@,
                start as int,
                end as int,
                v,
            ),
{
    let mut i: usize = start;
    while i < end
        invariant
            start <= i <= end <= idxs@.len(),
            idxs@.len() == old(idxs)@.len(),
            forall|k: int| 0 <= k < idxs@.len() ==> #[trigger] idxs@[k] < prims@.len(),
            forall|k: int|
                0 <= k < idxs@.len() && !(start <= k < end) ==> idxs@[k] == old(idxs)@[k],
            forall|v: usize|
                range_has(idxs@, start as int, end as int, v) == range_has(
                    old(idxs)@,
                    start as int,
                    end as int,
                    v,
                ),
        decreases end - i,
    {
        let mut j: usize = i;
        while j > start && axis_min_key(prims, idxs[j], axis) < axis_min_key(
            prims,
            idxs[j - 1],
            axis,
        )
            invariant
                start <= j <= i < end <= idxs@.len(),
                idxs@.len() == old(idxs)@.len(),
                forall|k: int| 0 <= k < idxs@.len() ==> #[trigger] idxs@[k] < prims@.len(),
                forall|k: int|
                    0 <= k < idxs@.len() && !(start <= k < end) ==> idxs@[k] == old(idxs)@[k],
                forall|v: usize|
                    range_has(idxs@, start as int, end as int, v) == range_has(
                        old(idxs)@,
                        start as int,
                        end as int,
                        v,
                    ),
            decreases j,
        {
            let ghost pre = idxs@;
            let a = idxs[j];
            let b = idxs[j - 1];
            idxs.set(j, b);
            idxs.set(j - 1, a);
            proof {
                assert(idxs@ =~= pre.update(j - 1, pre[j as int]).update(j as int, pre[j - 1]));
                lemma_swap_range_has(
                    pre,
                    pre.update(j - 1, pre[j as int]).update(j as int, pre[j - 1]),
                    start as int,
                    end as int,
                    j - 1,
                    j as int,
                );
            }
            j = j - 1;
        }
        i = i + 1;
    }
}

/// Any hit a primitive reports carries that primitive's material index.
pub proof fn lemma_prim_hit_mat(p: Prim, r: Ray, lo: int, hi: int)
    ensures
        match prim_hit_s(p, r, lo, hi) {
            Some(h) => h.mat == prim_mat_s(p),
            None => true,
        },
    decreases p,
{
    reveal(crate::sphere::sphere_hit_s);
    reveal(crate::quad::quad_hit_s);
    match p {
        Prim::Translate(t) => {
            let moved = Ray { orig: crate::vec3::v_sub_s(r.orig, t.offset), dir: r.dir, tm: r.tm };
            lemma_prim_hit_mat(*t.child, moved, lo, hi);
        },
        Prim::RotateY(ry) => {
            let s = ry.sin_theta as int;
            let c = ry.cos_theta as int;
            let rotated = Ray {
                orig: crate::translate::rot_in_s(s, c, r.orig),
                dir: crate::translate::rot_in_s(s, c, r.dir),
                tm: r.tm,
            };
            lemma_prim_hit_mat(*ry.child, rotated, lo, hi);
        },
        _ => {},
    }
}

/// Any hit a tree reports carries the material index of one of its
/// primitives.
pub proof fn lemma_tree_hit_mat(t: Tree, prims: Seq<Prim>, r: Ray, lo: int, hi: int, n: int)
    requires
        forall|i: int| 0 <= i < prims.len() ==> (prim_mat_s(#[trigger] prims[i]) as int) < n,
        tree_wf(t, prims),
    ensures
        match tree_hit_s(t, prims, r, lo, hi) {
            Some(h) => (h.mat as int) < n,
            None => true,
        },
    decreases t,
{
    match t {
        Tree::Leaf { a, b, bbox } => {
            lemma_prim_hit_mat(prims[a as int], r, lo, hi);
            match prim_hit_s(prims[a as int], r, lo, hi) {
                Some(h1) => {
                    lemma_prim_hit_mat(prims[b as int], r, lo, h1.t as int);
                },
                None => {
                    lemma_prim_hit_mat(prims[b as int], r, lo, hi);
                },
            }
        },
        Tree::Branch { left, right, bbox } => {
            lemma_tree_hit_mat(*left, prims, r, lo, hi, n);
            match tree_hit_s(*left, prims, r, lo, hi) {
                Some(h1) => {
                    lemma_tree_hit_mat(*right, prims, r, lo, h1.t as int, n);
                },
                None => {
                    lemma_tree_hit_mat(*right, prims, r, lo, hi, n);
                },
            }
        },
    }
}

/// A value occurs in [a, c) exactly when it occurs in [a, b) or [b, c).
proof fn lemma_range_has_split(s: Seq<usize>, a: int, b: int, c: int)
    requires
        0 <= a <= b <= c <= s.len(),
    ensures
        forall|v: usize|
            range_has(s, a, c, v) == (range_has(s, a, b, v) || range_has(s, b, c, v)),
{
    assert forall|v: usize|
        range_has(s, a, c, v) == (range_has(s, a, b, v) || range_has(s, b, c, v)) by {
        if range_has(s, a, c, v) {
            let k = choose|k: int| a <= k < c && s[k] == v;
            if k < b {
                assert(range_has(s, a, b, v));
            } else {
                assert(range_has(s, b, c, v));
            }
        }
        if range_has(s, a, b, v) {
            let k = choose|k: int| a <= k < b && s[k] == v;
            assert(a <= k < c && s[k] == v);
            assert(range_has(s, a, c, v));
        }
        if range_has(s, b, c, v) {
            let k = choose|k: int| b <= k < c && s[k] == v;
            assert(a <= k < c && s[k] == v);
            assert(range_has(s, a, c, v));
        }
    }
}

impl Tree {
    fn bbox_of(&self) -> (b: AABB)
        ensures
            b == tree_bbox_s(*self),
    {
        match self {
            Tree::Leaf { bbox, .. } => *bbox,
            Tree::Branch { bbox, .. } => *bbox,
        }
    }
}

/// Build the index tree over idxs[start..end): a leaf for one or two
/// primitives, otherwise sort along a random axis and split at the
/// midpoint.
fn build_tree(
    prims: &Vec<Prim>,
    idxs: &mut Vec<usize>,
    start: usize,
    end: usize,
    s: &mut Sampler,
) -> (t: Tree)
    requires
        start < end <= old(idxs)@.len(),
        forall|i: int| 0 <= i < old(idxs)@.len() ==> #[trigger] old(idxs)@[i] < prims@.len(),
        forall|i: int|
            0 <= i < prims@.len() ==> aabb_ordered_s(prim_bbox_s(#[trigger] prims@[i])),
    ensures
        final(idxs)@.len() == old(idxs)@.len(),
        forall|i: int| 0 <= i < final(idxs)@.len() ==> #[trigger] final(idxs)@[i] < prims@.len(),
        forall|i: int|
            0 <= i < final(idxs)@.len() && !(start <= i < end) ==> final(idxs)@[i] == old(
                idxs,
            )@[i],
        tree_wf(t, prims@),
        forall|v: usize|
            tree_idxs(t).contains(v) == range_has(old(idxs)@, start as int, end as int, v),
    decreases end - start,
{
    let axis = s.below(3);
    let span = end - start;

    if span == 1 {
        let a = idxs[start];
        let t = Tree::Leaf { a, b: a, bbox: prims[a].bounding_box() };
        proof {
            assert forall|v: usize|
                tree_idxs(t).contains(v) == range_has(
                    idxs@,
                    start as int,
                    end as int,
                    v,
                ) by {
                if tree_idxs(t).contains(v) {
                    assert(tree_idxs(t) =~= seq![a]);
                    assert(v == a);
                    assert(idxs@[start as int] == v);
                    assert(range_has(idxs@, start as int, end as int, v));
                }
                if range_has(idxs@, start as int, end as int, v) {
                    let k = choose|k: int| start <= k < end && idxs@[k] == v;
                    assert(k == start as int);
                    assert(tree_idxs(t)[0] == a);
                    assert(tree_idxs(t).contains(v));
                }
            }
        }
        t
    } else if span == 2 {
        let a = idxs[start];
        let b = idxs[start + 1];
        let t = Tree::Leaf {
            a,
            b,
            bbox: AABB::two_aabb(&prims[a].bounding_box(), &prims[b].bounding_box()),
        };
        proof {
            assert forall|v: usize|
                tree_idxs(t).contains(v) == range_has(
                    idxs@,
                    start as int,
                    end as int,
                    v,
                ) by {
                if tree_idxs(t).contains(v) {
                    if v == a {
                        assert(idxs@[start as int] == v);
                    } else {
                        assert(tree_idxs(t) =~= seq![a, b]);
                        assert(v == b);
                        assert(idxs@[start as int + 1] == v);
                    }
                    assert(range_has(idxs@, start as int, end as int, v));
                }
                if range_has(idxs@, start as int, end as int, v) {
                    let k = choose|k: int| start <= k < end && idxs@[k] == v;
                    if k == start as int || a == b {
                        assert(tree_idxs(t)[0] == v);
                    } else {
                        assert(tree_idxs(t)[1] == v);
                    }
                    assert(tree_idxs(t).contains(v));
                }
            }
        }
        t
    } else {
        sort_range(prims, idxs, start, end, axis);
        let ghost sorted = idxs@;
        let mid = start + span / 2;
        let left = build_tree(prims, idxs, start, mid, s);
        let ghost after_left = idxs@;
        let right = build_tree(prims, idxs, mid, end, s);
        let bbox = AABB::two_aabb(&left.bbox_of(), &right.bbox_of());
        let t = Tree::Branch { left: Box::new(left), right: Box::new(right), bbox };
        proof {
            // The right subtree saw the index array after the left build,
            // which left [mid, end) untouched.
            assert forall|v: usize|
                range_has(after_left, mid as int, end as int, v) == range_has(
                    sorted,
                    mid as int,
                    end as int,
                    v,
                ) by {
                if range_has(after_left, mid as int, end as int, v) {
                    let k = choose|k: int| mid <= k < end && after_left[k] == v;
                    assert(sorted[k] == v);
                    assert(range_has(sorted, mid as int, end as int, v));
                }
                if range_has(sorted, mid as int, end as int, v) {
                    let k = choose|k: int| mid <= k < end && sorted[k] == v;
                    assert(after_left[k] == v);
                    assert(range_has(after_left, mid as int, end as int, v));
                }
            }
            lemma_range_has_split(sorted, start as int, mid as int, end as int);
            assert forall|v: usize|
                tree_idxs(t).contains(v) == range_has(
                    old(idxs)@,
                    start as int,
                    end as int,
                    v,
                ) by {
                assert(tree_idxs(t) == tree_idxs(left) + tree_idxs(right));
                if tree_idxs(t).contains(v) {
                    let k = choose|k: int| 0 <= k < tree_idxs(t).len() && tree_idxs(t)[k] == v;
                    if k < tree_idxs(left).len() {
                        assert(tree_idxs(left)[k] == v);
                        assert(tree_idxs(left).contains(v));
                    } else {
                        assert(tree_idxs(right)[k - tree_idxs(left).len()] == v);
                        assert(tree_idxs(right).contains(v));
                    }
                }
                if tree_idxs(left).contains(v) {
                    let k = choose|k: int| 0 <= k < tree_idxs(left).len() && tree_idxs(left)[k] == v;
                    assert(tree_idxs(t)[k] == v);
                    assert(tree_idxs(t).contains(v));
                }
                if tree_idxs(right).contains(v) {
                    let k = choose|k: int|
                        0 <= k < tree_idxs(right).len() && tree_idxs(right)[k] == v;
                    assert(tree_idxs(t)[tree_idxs(left).len() + k] == v);
                    assert(tree_idxs(t).contains(v));
                }
            }
        }
        t
    }
}

/// Traverse: reject on the node box, then the left child, then the
/// right child below the left hit's parameter.
fn hit_tree(t: &Tree, prims: &Vec<Prim>, r: &Ray, ray_t: Interval) -> (res: Option<HitRecord>)
    requires
        tree_wf(*t, prims@),
    ensures
        res == tree_hit_s(*t, prims@, *r, ray_t.min as int, ray_t.max as int),
    decreases *t,
{
    match t {
        Tree::Leaf { a, b, bbox } => {
            if !bbox.hit(r, ray_t) {
                return None;
            }
            match prims[*a].hit(r, ray_t) {
                Some(h1) => match prims[*b].hit(r, Interval::new(ray_t.min, h1.t)) {
                    Some(h2) => Some(h2),
                    None => Some(h1),
                },
                None => prims[*b].hit(r, ray_t),
            }
        },
        Tree::Branch { left, right, bbox } => {
            if !bbox.hit(r, ray_t) {
                return None;
            }
            match hit_tree(left, prims, r, ray_t) {
                Some(h1) => match hit_tree(right, prims, r, Interval::new(ray_t.min, h1.t)) {
                    Some(h2) => Some(h2),
                    None => Some(h1),
                },
                None => hit_tree(right, prims, r, ray_t),
            }
        },
    }
}

impl BvhNode {
    /// Build a hierarchy over a set of primitives.
    pub fn new(prims: Vec<Prim>, s: &mut Sampler) -> (n: BvhNode)
        requires
            0 < prims@.len() < usize::MAX,
            forall|i: int|
                0 <= i < prims@.len() ==> aabb_ordered_s(prim_bbox_s(#[trigger] prims@[i])),
        ensures
            bvh_wf(n),
            n.prims@ == prims@,
            forall|v: usize| tree_idxs(n.tree).contains(v) == (v < prims@.len()),
    {
        let count = prims.len();
        let mut idxs: Vec<usize> = Vec::new();
        let mut i: usize = 0;
        while i < count
            invariant
                i <= count,
                idxs@.len() == i,
                forall|k: int| 0 <= k < i ==> #[trigger] idxs@[k] == k,
            decreases count - i,
        {
            idxs.push(i);
            i = i + 1;
        }
        let ghost init = idxs@;
        let tree = build_tree(&prims, &mut idxs, 0, count, s);
        proof {
            assert forall|v: usize| tree_idxs(tree).contains(v) == (v < prims@.len()) by {
                if v < prims@.len() {
                    assert(init[v as int] == v);
                    assert(range_has(init, 0, count as int, v));
                }
                if range_has(init, 0, count as int, v) {
                    let k = choose|k: int| 0 <= k < count && init[k] == v;
                    assert(v == k);
                }
            }
        }
        BvhNode { prims, tree }
    }

    /// The traversal result within (ray_t.min, ray_t.max).
    pub fn hit(&self, r: &Ray, ray_t: Interval) -> (res: Option<HitRecord>)
        requires
            bvh_wf(*self),
        ensures
            res == tree_hit_s(self.tree, self.prims@, *r, ray_t.min as int, ray_t.max as int),
    {
        hit_tree(&self.tree, &self.prims, r, ray_t)
    }

    pub fn bounding_box(&self) -> (b: AABB)
        ensures
            b == tree_bbox_s(self.tree),
    {
        self.tree.bbox_of()
    }

    /// Build a hierarchy over everything a scene list holds, flattening
    /// nested hierarchies into one primitive arena.
    pub fn from_list(list: &crate::hittable_list::HittableList, s: &mut Sampler) -> (n: BvhNode)
        requires
            crate::hittable_list::list_wf(*list),
            0 < crate::hittable_list::list_prims_s(list.objects@).len() < usize::MAX,
        ensures
            bvh_wf(n),
            n.prims@ == crate::hittable_list::list_prims_s(list.objects@),
            forall|v: usize| tree_idxs(n.tree).contains(v) == (v < n.prims@.len()),
            forall|i: int|
                0 <= i < n.prims@.len() ==> aabb_ordered_s(prim_bbox_s(#[trigger] n.prims@[i])),
    {
        let mut prims: Vec<Prim> = Vec::new();
        let count = list.objects.len();
        let mut i: usize = 0;
        while i < count
            invariant
                i <= count,
                count == list.objects@.len(),
                crate::hittable_list::list_wf(*list),
                prims@ == crate::hittable_list::list_prims_s(list.objects@.take(i as int)),
                forall|k: int|
                    0 <= k < prims@.len() ==> aabb_ordered_s(prim_bbox_s(#[trigger] prims@[k])),
            decreases count - i,
        {
            proof {
                crate::hittable_list::lemma_list_prims_take(list.objects@, i as int);
                assert(crate::hittable_list::list_prims_s(list.objects@) == crate::hittable_list::list_prims_s(
                    list.objects@.take(count as int),
                )) by {
                    assert(list.objects@.take(count as int) =~= list.objects@);
                }
            }
            match &list.objects[i] {
                crate::hittable_list::Object::Sphere(sp) => {
                    prims.push(Prim::Sphere(*sp));
                    proof {
                        assert(prims@ =~= crate::hittable_list::list_prims_s(
                            list.objects@.take(i as int),
                        ) + crate::hittable_list::object_prims_s(list.objects@[i as int]));
                    }
                },
                crate::hittable_list::Object::Quad(q) => {
                    prims.push(Prim::Quad(*q));
                    proof {
                        assert(prims@ =~= crate::hittable_list::list_prims_s(
                            list.objects@.take(i as int),
                        ) + crate::hittable_list::object_prims_s(list.objects@[i as int]));
                    }
                },
                crate::hittable_list::Object::Node(b) => {
                    let ghost before = prims@;
                    let inner = b.prims.len();
                    let mut j: usize = 0;
                    while j < inner
                        invariant
                            j <= inner,
                            inner == b.prims@.len(),
                            prims@ == before + b.prims@.take(j as int),
                            crate::hittable_list::object_wf(
                                crate::hittable_list::Object::Node(*b),
                            ),
                            forall|k: int|
                                0 <= k < prims@.len() ==> aabb_ordered_s(
                                    prim_bbox_s(#[trigger] prims@[k]),
                                ),
                        decreases inner - j,
                    {
                        prims.push(b.prims[j].duplicate());
                        proof {
                            assert(prims@ =~= before + b.prims@.take(j as int + 1));
                        }
                        j = j + 1;
                    }
                    proof {
                        assert(b.prims@.take(inner as int) =~= b.prims@);
                    }
                },
            }
            i = i + 1;
        }
        proof {
            assert(list.objects@.take(count as int) =~= list.objects@);
        }
        BvhNode::new(prims, s)
    }
}

/// A primitive's reported hit parameter lies inside the query interval.
pub proof fn lemma_prim_hit_bounds(p: Prim, r: Ray, lo: int, hi: int)
    ensures
        match prim_hit_s(p, r, lo, hi) {
            Some(h) => lo <= h.t as int <= hi,
            None => true,
        },
    decreases p,
{
    reveal(crate::sphere::sphere_hit_s);
    reveal(crate::quad::quad_hit_s);
    match p {
        Prim::Translate(t) => {
            let moved = Ray { orig: crate::vec3::v_sub_s(r.orig, t.offset), dir: r.dir, tm: r.tm };
            lemma_prim_hit_bounds(*t.child, moved, lo, hi);
        },
        Prim::RotateY(ry) => {
            let s = ry.sin_theta as int;
            let c = ry.cos_theta as int;
            let rotated = Ray {
                orig: crate::translate::rot_in_s(s, c, r.orig),
                dir: crate::translate::rot_in_s(s, c, r.dir),
                tm: r.tm,
            };
            lemma_prim_hit_bounds(*ry.child, rotated, lo, hi);
        },
        _ => {},
    }
}

/// The two quadratic roots of a sphere intersection are ordered.
proof fn lemma_sphere_roots_ordered(s: Sphere, r: Ray)
    ensures
        ({
            let center = crate::sphere::sphere_center_s(s, r.tm);
            let oc = crate::vec3::v_sub_s(center, r.orig);
            let a = crate::vec3::dot_s(r.dir, r.dir);
            let h = crate::vec3::dot_s(r.dir, oc);
            let c = crate::fx::sat64(
                crate::vec3::dot_s(oc, oc) - crate::fx::fx_mul_s(s.radius as int, s.radius as int),
            );
            let disc = crate::fx::sat64(
                crate::fx::fx_mul_s(h, h) - crate::fx::fx_mul_s(a, c),
            );
            disc >= 0 ==> crate::fx::fx_div_s(crate::fx::sat64(h - crate::fx::fx_sqrt_s(disc)), a)
                <= crate::fx::fx_div_s(crate::fx::sat64(h + crate::fx::fx_sqrt_s(disc)), a)
        }),
{
    let center = crate::sphere::sphere_center_s(s, r.tm);
    let oc = crate::vec3::v_sub_s(center, r.orig);
    let a = crate::vec3::dot_s(r.dir, r.dir);
    let h = crate::vec3::dot_s(r.dir, oc);
    let c = crate::fx::sat64(
        crate::vec3::dot_s(oc, oc) - crate::fx::fx_mul_s(s.radius as int, s.radius as int),
    );
    let disc = crate::fx::sat64(crate::fx::fx_mul_s(h, h) - crate::fx::fx_mul_s(a, c));
    crate::vec3::lemma_dot_self_nonneg(r.dir);
    if disc >= 0 {
        let sq = crate::fx::fx_sqrt_s(disc);
        if disc > 0 {
            crate::fx::lemma_isqrt_exists(disc * 65536);
        }
        assert(sq >= 0);
        crate::fx::lemma_fx_div_mono(
            crate::fx::sat64(h - sq),
            crate::fx::sat64(h + sq),
            a,
        );
    }
}

/// Narrowing the far bound: a primitive hit survives exactly when its
/// parameter stays inside, and no new hit can appear.
pub proof fn lemma_prim_hit_narrow(p: Prim, r: Ray, lo: int, hi: int, hi2: int)
    requires
        hi2 <= hi,
    ensures
        prim_hit_s(p, r, lo, hi2) == (match prim_hit_s(p, r, lo, hi) {
            Some(h) => if h.t as int <= hi2 {
                Some(h)
            } else {
                None
            },
            None => None::<HitRecord>,
        }),
    decreases p,
{
    reveal(crate::sphere::sphere_hit_s);
    reveal(crate::quad::quad_hit_s);
    match p {
        Prim::Sphere(s) => {
            lemma_sphere_roots_ordered(s, r);
        },
        Prim::Quad(q) => {
        },
        Prim::Translate(t) => {
            let moved = Ray { orig: crate::vec3::v_sub_s(r.orig, t.offset), dir: r.dir, tm: r.tm };
            lemma_prim_hit_narrow(*t.child, moved, lo, hi, hi2);
        },
        Prim::RotateY(ry) => {
            let s = ry.sin_theta as int;
            let c = ry.cos_theta as int;
            let rotated = Ray {
                orig: crate::translate::rot_in_s(s, c, r.orig),
                dir: crate::translate::rot_in_s(s, c, r.dir),
                tm: r.tm,
            };
            lemma_prim_hit_narrow(*ry.child, rotated, lo, hi, hi2);
        },
    }
}

/// A ray parameter window nested inside another stays nested after one
/// slab step on nested ordered intervals.
proof fn lemma_axis_nested(
    ivs: Interval,
    ivb: Interval,
    o: int,
    d: int,
    ls: int,
    hs: int,
    lb: int,
    hb: int,
)
    requires
        crate::aabb::iv_ordered_s(ivs),
        crate::aabb::iv_ordered_s(ivb),
        crate::aabb::iv_contains_s(ivb, ivs),
        lb <= ls,
        hs <= hb,
    ensures
        ({
            let ws = crate::aabb::axis_narrow_s(ivs, o, d, ls, hs);
            let wb = crate::aabb::axis_narrow_s(ivb, o, d, lb, hb);
            ws.0 < ws.1 ==> wb.0 <= ws.0 && ws.1 <= wb.1
        }),
{
    let ws = crate::aabb::axis_narrow_s(ivs, o, d, ls, hs);
    if ws.0 < ws.1 && d != 0 {
        crate::fx::lemma_fx_div_mono(
            crate::fx::sat64(ivb.min - o),
            crate::fx::sat64(ivs.min - o),
            d,
        );
        crate::fx::lemma_fx_div_mono(
            crate::fx::sat64(ivs.max - o),
            crate::fx::sat64(ivb.max - o),
            d,
        );
        crate::fx::lemma_fx_div_mono(
            crate::fx::sat64(ivs.min - o),
            crate::fx::sat64(ivs.max - o),
            d,
        );
        crate::fx::lemma_fx_div_mono(
            crate::fx::sat64(ivb.min - o),
            crate::fx::sat64(ivb.max - o),
            d,
        );
    }
}

/// A slab pass on a nested box and interval implies a pass on the
/// enclosing ones.
pub proof fn lemma_slab_nested(
    bs: AABB,
    bb: AABB,
    r: Ray,
    los: int,
    his: int,
    lob: int,
    hib: int,
)
    requires
        aabb_ordered_s(bs),
        aabb_ordered_s(bb),
        aabb_contains_s(bb, bs),
        lob <= los,
        his <= hib,
        aabb_hit_s(bs, r, los, his),
    ensures
        aabb_hit_s(bb, r, lob, hib),
{
    reveal(crate::aabb::aabb_hit_s);
    reveal(crate::aabb::slab_window_s);
    let ox = r.orig.x as int;
    let oy = r.orig.y as int;
    let oz = r.orig.z as int;
    let dx = r.dir.x as int;
    let dy = r.dir.y as int;
    let dz = r.dir.z as int;
    let w1s = crate::aabb::axis_narrow_s(bs.x, ox, dx, los, his);
    let w2s = crate::aabb::axis_narrow_s(bs.y, oy, dy, w1s.0, w1s.1);
    let w3s = crate::aabb::axis_narrow_s(bs.z, oz, dz, w2s.0, w2s.1);
    let w1b = crate::aabb::axis_narrow_s(bb.x, ox, dx, lob, hib);
    let w2b = crate::aabb::axis_narrow_s(bb.y, oy, dy, w1b.0, w1b.1);
    let w3b = crate::aabb::axis_narrow_s(bb.z, oz, dz, w2b.0, w2b.1);
    // The final small window is nonempty, so every intermediate one is.
    if w1s.1 <= w1s.0 {
        lemma_axis_step_keeps_empty(bs.y, oy, dy, w1s.0, w1s.1);
        lemma_axis_step_keeps_empty(bs.z, oz, dz, w2s.0, w2s.1);
    }
    if w2s.1 <= w2s.0 {
        lemma_axis_step_keeps_empty(bs.z, oz, dz, w2s.0, w2s.1);
    }
    lemma_axis_nested(bs.x, bb.x, ox, dx, los, his, lob, hib);
    lemma_axis_nested(bs.y, bb.y, oy, dy, w1s.0, w1s.1, w1b.0, w1b.1);
    lemma_axis_nested(bs.z, bb.z, oz, dz, w2s.0, w2s.1, w2b.0, w2b.1);
}

proof fn lemma_axis_step_keeps_empty(iv: Interval, o: int, d: int, lo: int, hi: int)
    requires
        hi <= lo,
    ensures
        crate::aabb::axis_narrow_s(iv, o, d, lo, hi).1 <= crate::aabb::axis_narrow_s(
            iv,
            o,
            d,
            lo,
            hi,
        ).0,
{
}

/// A box that is hit within a subinterval is hit within the whole.
pub proof fn lemma_slab_wider(b: AABB, r: Ray, lo: int, hi2: int, hi: int)
    requires
        aabb_ordered_s(b),
        hi2 <= hi,
        aabb_hit_s(b, r, lo, hi2),
    ensures
        aabb_hit_s(b, r, lo, hi),
{
    lemma_slab_nested(b, b, r, lo, hi2, lo, hi);
}

/// Coverage: every hit of the primitive, on any interval, passes the
/// slab test of the primitive's own box. This is the arithmetic
/// coherence between the quadratic or planar hit and the truncated
/// slab divisions; the equivalence theorem assumes it. In exact real
/// arithmetic it is a theorem of the geometry; in the truncated model
/// it can fail for degenerate inputs — a direction so short that its
/// squared length truncates to zero makes the quadratic accept a
/// saturated root far outside the box's slab window — so it stands as
/// a hypothesis rather than a lemma.
pub open spec fn prim_covered(p: Prim, r: Ray) -> bool {
    forall|lo: int, hi: int|
        (#[trigger] prim_hit_s(p, r, lo, hi)) is Some ==> aabb_hit_s(prim_bbox_s(p), r, lo, hi)
}

pub open spec fn covered_all(prims: Seq<Prim>, r: Ray) -> bool {
    forall|i: int| 0 <= i < prims.len() ==> prim_covered(#[trigger] prims[i], r)
}

/// Every node's box contains the boxes of all primitives below it.
proof fn lemma_tree_box_covers(t: Tree, prims: Seq<Prim>, k: int)
    requires
        tree_wf(t, prims),
        0 <= k < tree_idxs(t).len(),
    ensures
        tree_idxs(t)[k] < prims.len(),
        aabb_contains_s(tree_bbox_s(t), prim_bbox_s(prims[tree_idxs(t)[k] as int])),
    decreases t,
{
    match t {
        Tree::Leaf { a, b, bbox } => {
        },
        Tree::Branch { left, right, bbox } => {
            if k < tree_idxs(*left).len() {
                lemma_tree_box_covers(*left, prims, k);
            } else {
                lemma_tree_box_covers(*right, prims, k - tree_idxs(*left).len());
            }
        },
    }
}

/// The scan of indices whose primitives all miss is a miss.
proof fn lemma_scan_all_none(prims: Seq<Prim>, idxs: Seq<usize>, r: Ray, lo: int, hi: int)
    requires
        forall|k: int|
            0 <= k < idxs.len() ==> prim_hit_s(prims[#[trigger] idxs[k] as int], r, lo, hi)
                is None,
    ensures
        scan_hit_s(prims, idxs, r, lo, hi) is None,
    decreases idxs.len(),
{
    if idxs.len() > 0 {
        lemma_scan_all_none(prims, idxs.drop_last(), r, lo, hi);
    }
}

/// Scanning a concatenation: scan the first part, then the second below
/// the first part's hit.
proof fn lemma_scan_concat(prims: Seq<Prim>, a: Seq<usize>, b: Seq<usize>, r: Ray, lo: int, hi: int)
    ensures
        scan_hit_s(prims, a + b, r, lo, hi) == (match scan_hit_s(prims, a, r, lo, hi) {
            Some(h) => match scan_hit_s(prims, b, r, lo, h.t as int) {
                Some(h2) => Some(h2),
                None => Some(h),
            },
            None => scan_hit_s(prims, b, r, lo, hi),
        }),
    decreases b.len(),
{
    if b.len() == 0 {
        assert(a + b =~= a);
    } else {
        let b0 = b.drop_last();
        lemma_scan_concat(prims, a, b0, r, lo, hi);
        assert((a + b).drop_last() =~= a + b0);
        assert((a + b).last() == b.last());
    }
}

/// What a scan returns: a hit of one of its primitives over the full
/// interval, minimal among all of them; or a miss everywhere.
proof fn lemma_scan_min(prims: Seq<Prim>, idxs: Seq<usize>, r: Ray, lo: int, hi: int)
    requires
        forall|k: int| 0 <= k < idxs.len() ==> #[trigger] idxs[k] < prims.len(),
    ensures
        match scan_hit_s(prims, idxs, r, lo, hi) {
            Some(h) => {
                &&& lo <= h.t as int <= hi
                &&& exists|k: int|
                    0 <= k < idxs.len() && prim_hit_s(prims[#[trigger] idxs[k] as int], r, lo, hi)
                        == Some(h)
                &&& forall|k: int|
                    0 <= k < idxs.len() ==> match prim_hit_s(
                        prims[#[trigger] idxs[k] as int],
                        r,
                        lo,
                        hi,
                    ) {
                        Some(h2) => h.t as int <= h2.t as int,
                        None => true,
                    }
            },
            None => forall|k: int|
                0 <= k < idxs.len() ==> prim_hit_s(prims[#[trigger] idxs[k] as int], r, lo, hi)
                    is None,
        },
    decreases idxs.len(),
{
    if idxs.len() > 0 {
        let s0 = idxs.drop_last();
        let x = idxs.last();
        lemma_scan_min(prims, s0, r, lo, hi);
        let prev = scan_hit_s(prims, s0, r, lo, hi);
        let cm = match prev {
            Some(h) => h.t as int,
            None => hi,
        };
        lemma_prim_hit_narrow(prims[x as int], r, lo, hi, cm);
        lemma_prim_hit_bounds(prims[x as int], r, lo, hi);
        assert(forall|k: int| 0 <= k < s0.len() ==> idxs[k] == #[trigger] s0[k]);
        match scan_hit_s(prims, idxs, r, lo, hi) {
            Some(h) => {
                match prim_hit_s(prims[x as int], r, lo, cm) {
                    Some(h2) => {
                        assert(h == h2);
                        assert(prim_hit_s(prims[x as int], r, lo, hi) == Some(h2));
                        assert(idxs[idxs.len() - 1] == x);
                        assert(exists|k: int|
                            0 <= k < idxs.len() && prim_hit_s(
                                prims[#[trigger] idxs[k] as int],
                                r,
                                lo,
                                hi,
                            ) == Some(h));
                        assert forall|k: int| 0 <= k < idxs.len() implies match prim_hit_s(
                            prims[#[trigger] idxs[k] as int],
                            r,
                            lo,
                            hi,
                        ) {
                            Some(hk) => h.t as int <= hk.t as int,
                            None => true,
                        } by {
                            if k < idxs.len() - 1 {
                                assert(idxs[k] == s0[k]);
                                match prev {
                                    Some(hp) => {
                                        assert(h2.t as int <= hp.t as int);
                                    },
                                    None => {},
                                }
                            }
                        }
                    },
                    None => {
                        assert(prev == Some(h));
                        let kw = choose|k: int|
                            0 <= k < s0.len() && prim_hit_s(
                                prims[#[trigger] s0[k] as int],
                                r,
                                lo,
                                hi,
                            ) == Some(h);
                        assert(idxs[kw] == s0[kw]);
                        assert(prim_hit_s(prims[idxs[kw] as int], r, lo, hi) == Some(h));
                        assert(exists|k: int|
                            0 <= k < idxs.len() && prim_hit_s(
                                prims[#[trigger] idxs[k] as int],
                                r,
                                lo,
                                hi,
                            ) == Some(h));
                        assert forall|k: int| 0 <= k < idxs.len() implies match prim_hit_s(
                            prims[#[trigger] idxs[k] as int],
                            r,
                            lo,
                            hi,
                        ) {
                            Some(hk) => h.t as int <= hk.t as int,
                            None => true,
                        } by {
                            if k == idxs.len() - 1 {
                                match prim_hit_s(prims[x as int], r, lo, hi) {
                                    Some(hk) => {
                                        assert(hk.t as int > cm);
                                    },
                                    None => {},
                                }
                            } else {
                                assert(idxs[k] == s0[k]);
                            }
                        }
                    },
                }
            },
            None => {
                assert(prev is None);
                assert forall|k: int| 0 <= k < idxs.len() implies prim_hit_s(
                    prims[#[trigger] idxs[k] as int],
                    r,
                    lo,
                    hi,
                ) is None by {
                    if k == idxs.len() - 1 {
                        match prim_hit_s(prims[x as int], r, lo, hi) {
                            Some(hk) => {
                                assert(hk.t as int <= hi);
                                assert(prim_hit_s(prims[x as int], r, lo, cm) == Some(hk));
                            },
                            None => {},
                        }
                    } else {
                        assert(idxs[k] == s0[k]);
                    }
                }
            },
        }
    }
}

/// The traversal of a well-formed tree equals the scan of its leaf
/// indices, given arithmetic coverage of the primitives.
proof fn lemma_tree_scan(t: Tree, prims: Seq<Prim>, r: Ray, lo: int, hi: int)
    requires
        tree_wf(t, prims),
        covered_all(prims, r),
        forall|i: int|
            0 <= i < prims.len() ==> aabb_ordered_s(prim_bbox_s(#[trigger] prims[i])),
    ensures
        tree_hit_s(t, prims, r, lo, hi) == scan_hit_s(prims, tree_idxs(t), r, lo, hi),
    decreases t,
{
    match t {
        Tree::Leaf { a, b, bbox } => {
            lemma_leaf_scan(t, prims, r, lo, hi);
        },
        Tree::Branch { left, right, bbox } => {
            let la = tree_idxs(*left);
            let lb = tree_idxs(*right);
            assert(tree_idxs(t) == la + lb);
            if aabb_hit_s(bbox, r, lo, hi) {
                lemma_tree_scan(*left, prims, r, lo, hi);
                lemma_scan_concat(prims, la, lb, r, lo, hi);
                match tree_hit_s(*left, prims, r, lo, hi) {
                    Some(h1) => {
                        lemma_tree_scan(*right, prims, r, lo, h1.t as int);
                    },
                    None => {
                        lemma_tree_scan(*right, prims, r, lo, hi);
                    },
                }
            } else {
                // The node box is missed, so every primitive below is.
                assert forall|k: int|
                    0 <= k < tree_idxs(t).len() implies prim_hit_s(
                    prims[#[trigger] tree_idxs(t)[k] as int],
                    r,
                    lo,
                    hi,
                ) is None by {
                    lemma_tree_box_covers(t, prims, k);
                    let p = prims[tree_idxs(t)[k] as int];
                    if prim_hit_s(p, r, lo, hi) is Some {
                        assert(aabb_hit_s(prim_bbox_s(p), r, lo, hi));
                        lemma_slab_nested(prim_bbox_s(p), bbox, r, lo, hi, lo, hi);
                    }
                }
                lemma_scan_all_none(prims, tree_idxs(t), r, lo, hi);
            }
        },
    }
}

/// The leaf case of the traversal/scan equality.
proof fn lemma_leaf_scan(t: Tree, prims: Seq<Prim>, r: Ray, lo: int, hi: int)
    requires
        t is Leaf,
        tree_wf(t, prims),
        covered_all(prims, r),
        forall|i: int|
            0 <= i < prims.len() ==> aabb_ordered_s(prim_bbox_s(#[trigger] prims[i])),
    ensures
        tree_hit_s(t, prims, r, lo, hi) == scan_hit_s(prims, tree_idxs(t), r, lo, hi),
{
    reveal_with_fuel(scan_hit_s, 4);
    match t {
        Tree::Leaf { a, b, bbox } => {
            let pa = prims[a as int];
            let pb = prims[b as int];
            let idxs = tree_idxs(t);
            if aabb_hit_s(bbox, r, lo, hi) {
                if a == b {
                    assert(idxs =~= seq![a]);
                    assert(idxs.drop_last() =~= Seq::<usize>::empty());
                    match prim_hit_s(pa, r, lo, hi) {
                        Some(h1) => {
                            lemma_prim_hit_bounds(pa, r, lo, hi);
                            lemma_prim_hit_narrow(pa, r, lo, hi, h1.t as int);
                        },
                        None => {
                        },
                    }
                } else {
                    assert(idxs =~= seq![a, b]);
                    assert(idxs.drop_last() =~= seq![a]);
                    assert(seq![a].drop_last() =~= Seq::<usize>::empty());
                }
            } else {
                assert forall|k: int|
                    0 <= k < idxs.len() implies prim_hit_s(
                    prims[#[trigger] idxs[k] as int],
                    r,
                    lo,
                    hi,
                ) is None by {
                    let p = prims[idxs[k] as int];
                    assert(p == pa || p == pb);
                    if prim_hit_s(p, r, lo, hi) is Some {
                        assert(aabb_hit_s(prim_bbox_s(p), r, lo, hi));
                        lemma_slab_nested(prim_bbox_s(p), bbox, r, lo, hi, lo, hi);
                    }
                }
                lemma_scan_all_none(prims, idxs, r, lo, hi);
            }
        },
        Tree::Branch { .. } => {
        },
    }
}

/// The identity index sequence 0, 1, ..., n-1.
pub open spec fn all_idxs(n: int) -> Seq<usize> {
    Seq::new(n as nat, |i: int| i as usize)
}

/// The hierarchy finds a hit exactly when the brute-force scan over all
/// its primitives in order does, and at the same parameter; the record
/// either way is the full-interval hit of one of the primitives, which
/// carries that primitive's material. Holds whenever every primitive's
/// hits lie inside its own box's slab window (the arithmetic coverage
/// hypothesis).
pub proof fn lemma_bvh_equivalence(n: BvhNode, r: Ray, lo: int, hi: int)
    requires
        bvh_wf(n),
        covered_all(n.prims@, r),
        forall|i: int|
            0 <= i < n.prims@.len() ==> aabb_ordered_s(prim_bbox_s(#[trigger] n.prims@[i])),
        forall|v: usize| tree_idxs(n.tree).contains(v) == (v < n.prims@.len()),
        n.prims@.len() < usize::MAX,
    ensures
        ({
            let tr = tree_hit_s(n.tree, n.prims@, r, lo, hi);
            let sc = scan_hit_s(n.prims@, all_idxs(n.prims@.len() as int), r, lo, hi);
            &&& tr is Some <==> sc is Some
            &&& (tr is Some ==> tr.unwrap().t == sc.unwrap().t)
            &&& (tr is Some ==> exists|k: int|
                0 <= k < n.prims@.len() && #[trigger] prim_hit_s(n.prims@[k], r, lo, hi) == tr)
            &&& (sc is Some ==> exists|k: int|
                0 <= k < n.prims@.len() && #[trigger] prim_hit_s(n.prims@[k], r, lo, hi) == sc)
        }),
{
    let prims = n.prims@;
    let count = prims.len() as int;
    lemma_tree_scan(n.tree, prims, r, lo, hi);
    let ti = tree_idxs(n.tree);
    assert forall|k: int| 0 <= k < ti.len() implies #[trigger] ti[k] < prims.len() by {
        assert(ti.contains(ti[k]));
    }
    assert forall|k: int| 0 <= k < all_idxs(count).len() implies #[trigger] all_idxs(count)[k]
        < prims.len() by {}
    lemma_scan_min(prims, ti, r, lo, hi);
    lemma_scan_min(prims, all_idxs(count), r, lo, hi);
    let tr = tree_hit_s(n.tree, prims, r, lo, hi);
    let sc = scan_hit_s(prims, all_idxs(count), r, lo, hi);
    if tr is Some {
        let h = tr.unwrap();
        let kw = choose|k: int|
            0 <= k < ti.len() && prim_hit_s(prims[#[trigger] ti[k] as int], r, lo, hi) == Some(h);
        let i = ti[kw];
        assert(ti.contains(i));
        assert(all_idxs(count)[i as int] == i);
        assert(prim_hit_s(prims[all_idxs(count)[i as int] as int], r, lo, hi) is Some);
        assert(sc is Some);
        assert(0 <= i as int && (i as int) < prims.len() && prim_hit_s(prims[i as int], r, lo, hi) == tr);
    }
    if sc is Some {
        let h = sc.unwrap();
        let kw = choose|k: int|
            0 <= k < all_idxs(count).len() && prim_hit_s(
                prims[#[trigger] all_idxs(count)[k] as int],
                r,
                lo,
                hi,
            ) == Some(h);
        let i = all_idxs(count)[kw];
        assert(i < prims.len());
        assert(ti.contains(i));
        let kt = choose|k: int| 0 <= k < ti.len() && ti[k] == i;
        assert(prim_hit_s(prims[ti[kt] as int], r, lo, hi) is Some);
        assert(tr is Some);
    }
    if tr is Some && sc is Some {
        let ht = tr.unwrap();
        let hs = sc.unwrap();
        // Each result is a full-interval hit of some primitive known to
        // the other scan, so each parameter bounds the other.
        let kt = choose|k: int|
            0 <= k < ti.len() && prim_hit_s(prims[#[trigger] ti[k] as int], r, lo, hi) == Some(ht);
        let it = ti[kt];
        assert(all_idxs(count)[it as int] == it);
        assert(hs.t as int <= ht.t as int);
        let ks = choose|k: int|
            0 <= k < all_idxs(count).len() && prim_hit_s(
                prims[#[trigger] all_idxs(count)[k] as int],
                r,
                lo,
                hi,
            ) == Some(hs);
        let is_ = all_idxs(count)[ks];
        assert(ti.contains(is_));
        let kt2 = choose|k: int| 0 <= k < ti.len() && ti[k] == is_;
        assert(prim_hit_s(prims[ti[kt2] as int], r, lo, hi) == Some(hs));
        assert(ht.t as int <= hs.t as int);
    }
    if sc is Some {
        let h = sc.unwrap();
        let kw = choose|k: int|
            0 <= k < all_idxs(count).len() && prim_hit_s(
                prims[#[trigger] all_idxs(count)[k] as int],
                r,
                lo,
                hi,
            ) == Some(h);
        let i2 = all_idxs(count)[kw];
        assert(0 <= i2 as int && (i2 as int) < prims.len() && prim_hit_s(prims[i2 as int], r, lo, hi) == sc);
    }
}

} // verus!
