//! Scene objects and the flat scene list. An object is a primitive or
//! a built hierarchy; the list scans its objects in order, narrowing
//! the search interval to the closest hit found so far.

use crate::aabb::{aabb_ordered_s, AABB};
use crate::interval::iv_union_s;
use crate::bvh::{bvh_wf, prim_bbox_s, prim_mat_s, tree_bbox_s, tree_hit_s, BvhNode, Prim};
use crate::fx::{fx_add, fx_div, fx_div_s, sat64, FX_ONE};
use crate::hittable::HitRecord;
use crate::interval::Interval;
use crate::quad::{quad_pdf_value_s, Quad};
use crate::ray::Ray;
use crate::rng::Sampler;
use crate::sphere::Sphere;
use crate::vec3::{v_add_s, v_scale_s, v_sub_s, Point3, Vec3};
use vstd::prelude::*;

verus! {

pub enum Object {
    Sphere(Sphere),
    Quad(Quad),
    Node(BvhNode),
}

/// The primitives an object stands for.
pub open spec fn object_prims_s(o: Object) -> Seq<Prim> {
    match o {
        Object::Sphere(s) => seq![Prim::Sphere(s)],
        Object::Quad(q) => seq![Prim::Quad(q)],
        Object::Node(n) => n.prims@,
    }
}

pub open spec fn object_wf(o: Object) -> bool {
    match o {
        Object::Sphere(s) => aabb_ordered_s(s.bbox),
        Object::Quad(q) => aabb_ordered_s(q.bbox),
        Object::Node(n) => bvh_wf(n) && forall|i: int|
            0 <= i < n.prims@.len() ==> aabb_ordered_s(prim_bbox_s(#[trigger] n.prims@[i])),
    }
}

pub open spec fn object_hit_s(o: Object, r: Ray, lo: int, hi: int) -> Option<HitRecord> {
    match o {
        Object::Sphere(s) => crate::sphere::sphere_hit_s(s, r, lo, hi),
        Object::Quad(q) => crate::quad::quad_hit_s(q, r, lo, hi),
        Object::Node(n) => tree_hit_s(n.tree, n.prims@, r, lo, hi),
    }
}

pub open spec fn object_bbox_s(o: Object) -> AABB {
    match o {
        Object::Sphere(s) => s.bbox,
        Object::Quad(q) => q.bbox,
        Object::Node(n) => tree_bbox_s(n.tree),
    }
}

/// The importance weight an object gives a light-sampling direction;
/// only quads weigh directions, as in the surface defaults.
pub open spec fn object_pdf_value_s(o: Object, origin: Point3, direction: Vec3) -> int {
    match o {
        Object::Quad(q) => quad_pdf_value_s(q, origin, direction),
        _ => 0,
    }
}

/// What an object's sampled light direction can be: quads sample their
/// surface, everything else answers the fixed default direction.
pub open spec fn object_random_ok(o: Object, origin: Vec3, r: Vec3) -> bool {
    match o {
        Object::Quad(q) => exists|r1: int, r2: int|
            0 <= r1 < FX_ONE && 0 <= r2 < FX_ONE && r == v_sub_s(
                v_add_s(
                    v_add_s(q.q, #[trigger] v_scale_s(q.u, r1)),
                    #[trigger] v_scale_s(q.v, r2),
                ),
                origin,
            ),
        _ => r == (Vec3 { x: FX_ONE, y: 0, z: 0 }),
    }
}

impl Object {
    pub fn hit(&self, r: &Ray, ray_t: Interval) -> (res: Option<HitRecord>)
        requires
            object_wf(*self),
        ensures
            res == object_hit_s(*self, *r, ray_t.min as int, ray_t.max as int),
    {
        match self {
            Object::Sphere(s) => s.hit(r, ray_t),
            Object::Quad(q) => q.hit(r, ray_t),
            Object::Node(n) => n.hit(r, ray_t),
        }
    }

    pub fn bounding_box(&self) -> (b: AABB)
        ensures
            b == object_bbox_s(*self),
    {
        match self {
            Object::Sphere(s) => s.bounding_box(),
            Object::Quad(q) => q.bounding_box(),
            Object::Node(n) => n.bounding_box(),
        }
    }

    pub fn pdf_value(&self, origin: &Point3, direction: &Vec3) -> (r: i64)
        ensures
            r as int == object_pdf_value_s(*self, *origin, *direction),
    {
        match self {
            Object::Quad(q) => q.pdf_value(origin, direction),
            _ => 0,
        }
    }

    pub fn random(&self, origin: &Vec3, s: &mut Sampler) -> (r: Vec3)
        ensures
            object_random_ok(*self, *origin, r),
    {
        match self {
            Object::Quad(q) => q.random(origin, s),
            _ => Vec3 { x: FX_ONE, y: 0, z: 0 },
        }
    }
}

/// The closest hit after scanning the first n objects, each tested
/// below the closest parameter found before it.
pub open spec fn list_hit_upto_s(objs: Seq<Object>, r: Ray, lo: int, hi: int, n: int) -> Option<
    HitRecord,
>
    decreases n,
{
    if n <= 0 {
        None
    } else {
        let prev = list_hit_upto_s(objs, r, lo, hi, n - 1);
        let cm = match prev {
            Some(h) => h.t as int,
            None => hi,
        };
        match object_hit_s(objs[n - 1], r, lo, cm) {
            Some(h2) => Some(h2),
            None => prev,
        }
    }
}

pub open spec fn list_hit_s(objs: Seq<Object>, r: Ray, lo: int, hi: int) -> Option<HitRecord> {
    list_hit_upto_s(objs, r, lo, hi, objs.len() as int)
}

/// The averaged importance weight over the objects, mirroring the sum
/// divided by the count.
pub open spec fn list_pdf_sum_s(objs: Seq<Object>, origin: Point3, direction: Vec3, n: int) -> int
    decreases n,
{
    if n <= 0 {
        0
    } else {
        sat64(
            list_pdf_sum_s(objs, origin, direction, n - 1) + object_pdf_value_s(
                objs[n - 1],
                origin,
                direction,
            ),
        )
    }
}

/// All the primitives a sequence of objects stands for, in order.
pub open spec fn list_prims_s(objs: Seq<Object>) -> Seq<Prim>
    decreases objs.len(),
{
    if objs.len() == 0 {
        Seq::empty()
    } else {
        list_prims_s(objs.drop_last()) + object_prims_s(objs.last())
    }
}

/// Peeling the flatten forward: the prims of the first i + 1 objects
/// are those of the first i followed by the (i+1)th's.
pub proof fn lemma_list_prims_take(objs: Seq<Object>, i: int)
    requires
        0 <= i < objs.len(),
    ensures
        list_prims_s(objs.take(i + 1)) == list_prims_s(objs.take(i)) + object_prims_s(objs[i]),
{
    assert(objs.take(i + 1).drop_last() =~= objs.take(i));
    assert(objs.take(i + 1).last() == objs[i]);
}

/// All material indices of an object's primitives lie below n.
pub open spec fn object_mats_ok(o: Object, n: int) -> bool {
    match o {
        Object::Sphere(s) => (s.mat as int) < n,
        Object::Quad(q) => (q.mat as int) < n,
        Object::Node(b) => forall|i: int|
            0 <= i < b.prims@.len() ==> (prim_mat_s(#[trigger] b.prims@[i]) as int) < n,
    }
}

pub open spec fn list_mats_ok(objs: Seq<Object>, n: int) -> bool {
    forall|i: int| 0 <= i < objs.len() ==> object_mats_ok(#[trigger] objs[i], n)
}

/// Any hit an object reports carries a material index below n.
pub proof fn lemma_object_hit_mat(o: Object, r: Ray, lo: int, hi: int, n: int)
    requires
        object_mats_ok(o, n),
        object_wf(o),
    ensures
        match object_hit_s(o, r, lo, hi) {
            Some(h) => (h.mat as int) < n,
            None => true,
        },
{
    match o {
        Object::Sphere(_) => {
            crate::bvh::lemma_prim_hit_mat(object_prims_s(o)[0], r, lo, hi);
        },
        Object::Quad(_) => {
            crate::bvh::lemma_prim_hit_mat(object_prims_s(o)[0], r, lo, hi);
        },
        Object::Node(b) => {
            crate::bvh::lemma_tree_hit_mat(b.tree, b.prims@, r, lo, hi, n);
        },
    }
}

/// Any hit the list scan reports carries a material index below n.
pub proof fn lemma_list_hit_mat(objs: Seq<Object>, r: Ray, lo: int, hi: int, n: int, k: int)
    requires
        list_mats_ok(objs, n),
        forall|i: int| 0 <= i < objs.len() ==> object_wf(#[trigger] objs[i]),
        k <= objs.len(),
    ensures
        match list_hit_upto_s(objs, r, lo, hi, k) {
            Some(h) => (h.mat as int) < n,
            None => true,
        },
    decreases k,
{
    if k > 0 {
        lemma_list_hit_mat(objs, r, lo, hi, n, k - 1);
        let prev = list_hit_upto_s(objs, r, lo, hi, k - 1);
        let cm = match prev {
            Some(h) => h.t as int,
            None => hi,
        };
        lemma_object_hit_mat(objs[k - 1], r, lo, cm, n);
    }
}

pub struct HittableList {
    pub objects: Vec<Object>,
    pub bbox: AABB,
}

pub open spec fn list_wf(l: HittableList) -> bool {
    forall|i: int| 0 <= i < l.objects@.len() ==> object_wf(#[trigger] l.objects@[i])
}

impl HittableList {
    pub fn new() -> (l: HittableList)
        ensures
            l.objects@.len() == 0,
            l.bbox == (AABB {
                x: Interval { min: 0, max: 0 },
                y: Interval { min: 0, max: 0 },
                z: Interval { min: 0, max: 0 },
            }),
    {
        HittableList { objects: Vec::new(), bbox: AABB::zero() }
    }

    /// Append an object; the cached box grows to hold its box.
    pub fn add(&mut self, object: Object)
        ensures
            final(self).objects@ == old(self).objects@.push(object),
            final(self).bbox == crate::aabb::pad_s(
                AABB {
                    x: iv_union_s(old(self).bbox.x, object_bbox_s(object).x),
                    y: iv_union_s(old(self).bbox.y, object_bbox_s(object).y),
                    z: iv_union_s(old(self).bbox.z, object_bbox_s(object).z),
                },
            ),
    {
        self.bbox = AABB::two_aabb(&self.bbox, &object.bounding_box());
        self.objects.push(object);
    }

    /// A list holding one object.
    pub fn new_form(objects: Object) -> (l: HittableList)
        ensures
            l.objects@ == seq![objects],
    {
        let mut list = Self::new();
        list.add(objects);
        proof {
            assert(list.objects@ =~= seq![objects]);
        }
        list
    }

    /// The closest hit among the objects within (ray_t.min, ray_t.max).
    pub fn hit(&self, r: &Ray, ray_t: Interval) -> (res: Option<HitRecord>)
        requires
            list_wf(*self),
        ensures
            res == list_hit_s(self.objects@, *r, ray_t.min as int, ray_t.max as int),
    {
        let mut rec: Option<HitRecord> = None;
        let mut closest_so_far: i64 = ray_t.max;
        let n = self.objects.len();
        let mut i: usize = 0;
        while i < n
            invariant
                i <= n,
                n == self.objects@.len(),
                list_wf(*self),
                rec == list_hit_upto_s(self.objects@, *r, ray_t.min as int, ray_t.max as int, i as int),
                closest_so_far as int == match rec {
                    Some(h) => h.t as int,
                    None => ray_t.max as int,
                },
            decreases n - i,
        {
            if let Some(tmp_rec) = self.objects[i].hit(r, Interval::new(ray_t.min, closest_so_far)) {
                closest_so_far = tmp_rec.t;
                rec = Some(tmp_rec);
            }
            i = i + 1;
        }
        rec
    }

    pub fn bounding_box(&self) -> (b: AABB)
        ensures
            b == self.bbox,
    {
        self.bbox
    }

    /// The average of the objects' importance weights.
    pub fn pdf_value(&self, origin: &Point3, direction: &Vec3) -> (r: i64)
        requires
            0 < self.objects@.len() < 0x100000000,
        ensures
            r as int == fx_div_s(
                list_pdf_sum_s(self.objects@, *origin, *direction, self.objects@.len() as int),
                sat64(self.objects@.len() * (FX_ONE as int)),
            ),
    {
        let mut sum: i64 = 0;
        let n = self.objects.len();
        let mut i: usize = 0;
        while i < n
            invariant
                i <= n,
                n == self.objects@.len(),
                sum as int == list_pdf_sum_s(self.objects@, *origin, *direction, i as int),
            decreases n - i,
        {
            sum = fx_add(sum, self.objects[i].pdf_value(origin, direction));
            i = i + 1;
        }
        fx_div(sum, crate::fx::fx_from_int(n as i64))
    }

    /// The sampled light direction of one object chosen uniformly.
    pub fn random(&self, origin: &Point3, s: &mut Sampler) -> (r: Vec3)
        requires
            0 < self.objects@.len() < 0x100000000,
        ensures
            exists|i: int|
                0 <= i < self.objects@.len() && object_random_ok(
                    #[trigger] self.objects@[i],
                    *origin,
                    r,
                ),
    {
        let size = self.objects.len();
        let k = s.below(size as u32) as usize;
        let r = self.objects[k].random(origin, s);
        proof {
            assert(object_random_ok(self.objects@[k as int], *origin, r));
        }
        r
    }
}

/// A scene list holding one built hierarchy finds exactly what the
/// brute-force scan over the hierarchy's primitives finds, under the
/// same arithmetic coverage hypothesis as the tree-level statement.
pub proof fn lemma_list_of_bvh_equals_scan(n: BvhNode, r: Ray, lo: int, hi: int)
    requires
        bvh_wf(n),
        crate::bvh::covered_all(n.prims@, r),
        forall|i: int|
            0 <= i < n.prims@.len() ==> aabb_ordered_s(prim_bbox_s(#[trigger] n.prims@[i])),
        forall|v: usize| crate::bvh::tree_idxs(n.tree).contains(v) == (v < n.prims@.len()),
        n.prims@.len() < usize::MAX,
    ensures
        ({
            let li = list_hit_s(seq![Object::Node(n)], r, lo, hi);
            let sc = crate::bvh::scan_hit_s(
                n.prims@,
                crate::bvh::all_idxs(n.prims@.len() as int),
                r,
                lo,
                hi,
            );
            &&& li is Some <==> sc is Some
            &&& (li is Some ==> li.unwrap().t == sc.unwrap().t)
        }),
{
    crate::bvh::lemma_bvh_equivalence(n, r, lo, hi);
    reveal_with_fuel(list_hit_upto_s, 3);
    let objs = seq![Object::Node(n)];
    assert(objs.len() == 1);
    assert(list_hit_upto_s(objs, r, lo, hi, 1) == (match object_hit_s(objs[0], r, lo, hi) {
        Some(h) => Some(h),
        None => None::<HitRecord>,
    }));
}

impl Default for HittableList {
    fn default() -> (l: HittableList)
        ensures
            l.objects@.len() == 0,
    {
        HittableList::new()
    }
}

} // verus!
