use vstd::prelude::*;

use std::sync::Arc;
use vstd::multiset::Multiset;

use crate::aabb::{lemma_encloses_transitive, lemma_union_empty_identity, lemma_union_encloses, Aabb};
use crate::object::Object;
use crate::utils::random_int;

verus! {

/// Union of the boxes of the bounded objects of `objs` (unbounded ones add
/// nothing), starting from the empty box.
pub open spec fn union_all(objs: Seq<Object>) -> Aabb
    decreases objs.len(),
{
    if objs.len() == 0 {
        Aabb::empty_spec()
    } else {
        let rest = union_all(objs.drop_last());
        match objs.last().bbox_spec() {
            Some(b) => Aabb::union_spec(rest, b),
            None => rest,
        }
    }
}

/// Every object of `objs` has a box.
pub open spec fn all_bounded(objs: Seq<Object>) -> bool {
    forall|i: int| 0 <= i < objs.len() ==> (#[trigger] objs[i]).bbox_spec() is Some
}

/// The boxes of the objects of `objs`, in order.
pub open spec fn object_boxes(objs: Seq<Object>) -> Seq<Aabb> {
    Seq::new(objs.len(), |i: int| objs[i].bbox_spec().unwrap())
}

/// A list of objects searched one after the other, with the union of their
/// boxes.
#[derive(Clone, Debug)]
pub struct HittableList {
    pub objects: Vec<Object>,
    pub bbox: Aabb,
}

impl HittableList {
    /// The stored box is the union of the objects' boxes.
    pub open spec fn wf(&self) -> bool {
        self.bbox == union_all(self.objects@)
    }

    /// The empty list.
    pub fn new() -> (r: HittableList)
        ensures
            r.wf(),
            r.objects@.len() == 0,
            r.bbox == Aabb::empty_spec(),
    {
        HittableList { objects: Vec::new(), bbox: Aabb::empty() }
    }

    /// The list of the single object `obj`.
    pub fn from_object(obj: Object) -> (r: HittableList)
        ensures
            r.wf(),
            r.objects@ == seq![obj],
            obj.bbox_spec() matches Some(b) ==> r.bbox == b,
    {
        let mut list = Self::new();
        list.add(obj);
        proof {
            assert(list.objects@ =~= seq![obj]);
            if let Some(b) = obj.bbox_spec() {
                lemma_union_empty_identity(b);
            }
        }
        list
    }

    /// Appends `object`; the list's box grows to hold the object's box.
    pub fn add(&mut self, object: Object)
        requires
            old(self).wf(),
        ensures
            final(self).wf(),
            final(self).objects@ == old(self).objects@.push(object),
            object.bbox_spec() matches Some(b) ==> final(self).bbox == Aabb::union_spec(
                old(self).bbox,
                b,
            ),
            object.bbox_spec() is None ==> final(self).bbox == old(self).bbox,
    {
        match object.bounding_box() {
            Some(b) => self.bbox = Aabb::from_boxes(&self.bbox, &b),
            None => {},
        }
        self.objects.push(object);
        assert(self.objects@.drop_last() == old(self).objects@);
    }

    /// The list's box.
    pub fn bounding_box(&self) -> (r: Aabb)
        ensures
            r == self.bbox,
    {
        self.bbox
    }

    /// A list holding one bounding volume hierarchy over this list's objects
    /// (a hierarchy without root when the list is empty). Every object needs a
    /// box.
    pub fn create_bvh(self) -> (r: HittableList)
        requires
            self.wf(),
            all_bounded(self.objects@),
        ensures
            r.wf(),
            all_nonempty(self.objects@) ==> r.bbox == self.bbox,
            r.objects@.len() == 1,
            r.objects@[0] matches Object::Node(b) && b.wf() && b.objects@ == self.objects@ && r.bbox
                == b.bbox,
    {
        let n = self.objects.len();
        let ghost before = self;
        let bvh = BvhNode::from_list(self);
        proof {
            if all_nonempty(before.objects@) {
                lemma_bvh_keeps_box(before, bvh);
            }
        }
        HittableList::from_object(Object::Node(Arc::new(bvh)))
    }
}

/// The set of values that `s` holds at positions `lo .. hi`.
pub open spec fn range_set(s: Seq<usize>, lo: int, hi: int) -> Set<usize> {
    Set::new(|v: usize| exists|k: int| lo <= k < hi && s[k] == v)
}

/// Swapping two positions inside a range keeps the values of the range.
proof fn lemma_swap_range_set(s: Seq<usize>, lo: int, hi: int, a: int, b: int)
    requires
        0 <= lo <= a < hi,
        lo <= b < hi,
        hi <= s.len(),
    ensures
        range_set(s.update(a, s[b]).update(b, s[a]), lo, hi) == range_set(s, lo, hi),
{
    let t = s.update(a, s[b]).update(b, s[a]);
    assert forall|v: usize| range_set(t, lo, hi).contains(v) implies range_set(s, lo, hi).contains(
        v,
    ) by {
        let k = choose|k: int| lo <= k < hi && t[k] == v;
        if k == b {
            assert(s[a] == v);
        } else if k == a {
            assert(s[b] == v);
        } else {
            assert(s[k] == v);
        }
    }
    assert forall|v: usize| range_set(s, lo, hi).contains(v) implies range_set(t, lo, hi).contains(
        v,
    ) by {
        let k = choose|k: int| lo <= k < hi && s[k] == v;
        if k == a {
            assert(t[b] == v);
        } else if k == b {
            assert(t[a] == v);
        } else {
            assert(t[k] == v);
        }
    }
    assert(range_set(t, lo, hi) =~= range_set(s, lo, hi));
}

/// The values that `s` holds at positions `lo .. hi`, with their repetitions.
pub open spec fn range_bag(s: Seq<usize>, lo: int, hi: int) -> Multiset<usize> {
    s.subrange(lo, hi).to_multiset()
}

/// Swapping two positions inside a range keeps the values of the range, with
/// their repetitions.
proof fn lemma_swap_range_bag(s: Seq<usize>, lo: int, hi: int, a: int, b: int)
    requires
        0 <= lo <= a < hi,
        lo <= b < hi,
        hi <= s.len(),
    ensures
        range_bag(s.update(a, s[b]).update(b, s[a]), lo, hi) == range_bag(s, lo, hi),
{
    broadcast use vstd::seq_lib::group_to_multiset_ensures;

    let t = s.subrange(lo, hi);
    let t1 = t.update(a - lo, t[b - lo]);
    let t2 = t1.update(b - lo, t[a - lo]);
    assert(s.update(a, s[b]).update(b, s[a]).subrange(lo, hi) =~= t2);
    if a == b {
        assert(t2 =~= t);
    } else {
        let m = t.to_multiset();
        let x = t[a - lo];
        let y = t[b - lo];
        assert(t1[b - lo] == y);
        assert(m.count(x) > 0);
        assert(m.count(y) > 0);
        assert(t2.to_multiset() =~= m.insert(y).remove(x).insert(x).remove(y));
        assert(m.insert(y).remove(x).insert(x).remove(y) =~= m);
    }
}

/// Two sequences that agree on a range hold the same values there, with
/// their repetitions.
proof fn lemma_agree_range_bag(s: Seq<usize>, t: Seq<usize>, lo: int, hi: int)
    requires
        0 <= lo <= hi <= s.len(),
        hi <= t.len(),
        forall|k: int| lo <= k < hi ==> s[k] == t[k],
    ensures
        range_bag(s, lo, hi) == range_bag(t, lo, hi),
{
    assert(s.subrange(lo, hi) =~= t.subrange(lo, hi));
}

/// The values of a range, with repetitions, are those of its two halves.
proof fn lemma_split_range_bag(s: Seq<usize>, lo: int, mid: int, hi: int)
    requires
        0 <= lo <= mid <= hi <= s.len(),
    ensures
        range_bag(s, lo, hi) == range_bag(s, lo, mid).add(range_bag(s, mid, hi)),
{
    assert(s.subrange(lo, hi) =~= s.subrange(lo, mid) + s.subrange(mid, hi));
    vstd::seq_lib::lemma_multiset_commutative(s.subrange(lo, mid), s.subrange(mid, hi));
}

/// Two sequences that agree on a range hold the same values there.
proof fn lemma_agree_range_set(s: Seq<usize>, t: Seq<usize>, lo: int, hi: int)
    requires
        forall|k: int| lo <= k < hi ==> s[k] == t[k],
    ensures
        range_set(s, lo, hi) == range_set(t, lo, hi),
{
    assert forall|v: usize| range_set(t, lo, hi).contains(v) implies range_set(s, lo, hi).contains(
        v,
    ) by {
        let k = choose|k: int| lo <= k < hi && t[k] == v;
        assert(s[k] == v);
    }
    assert forall|v: usize| range_set(s, lo, hi).contains(v) implies range_set(t, lo, hi).contains(
        v,
    ) by {
        let k = choose|k: int| lo <= k < hi && s[k] == v;
        assert(t[k] == v);
    }
    assert(range_set(t, lo, hi) =~= range_set(s, lo, hi));
}

/// The values of a range are those of its two halves.
proof fn lemma_split_range_set(s: Seq<usize>, lo: int, mid: int, hi: int)
    requires
        lo <= mid <= hi,
    ensures
        range_set(s, lo, hi) == range_set(s, lo, mid).union(range_set(s, mid, hi)),
{
    assert forall|v: usize| range_set(s, lo, hi).contains(v) implies range_set(
        s,
        lo,
        mid,
    ).union(range_set(s, mid, hi)).contains(v) by {
        let k = choose|k: int| lo <= k < hi && s[k] == v;
        if k < mid {
            assert(range_set(s, lo, mid).contains(v));
        } else {
            assert(range_set(s, mid, hi).contains(v));
        }
    }
    assert(range_set(s, lo, hi) =~= range_set(s, lo, mid).union(range_set(s, mid, hi)));
}

/// Sort key of object `i` on `axis`: the lower bound of its box there.
pub open spec fn box_key(boxes: Seq<Aabb>, axis: int, i: usize) -> i64 {
    boxes[i as int].axis_spec(axis).min
}

/// A node of a bounding volume hierarchy: a leaf names an object by its index;
/// a branch holds two subtrees, the union of their boxes and the axis along
/// which its objects were split.
#[derive(Debug)]
pub enum BvhNode {
    Leaf(usize),
    Branch { left: Box<BvhNode>, right: Box<BvhNode>, bbox: Aabb, axis: u8 },
}

impl BvhNode {
    /// The box of the node, given the boxes of the objects.
    pub open spec fn box_of(self, boxes: Seq<Aabb>) -> Aabb {
        match self {
            BvhNode::Leaf(i) => boxes[i as int],
            BvhNode::Branch { bbox, .. } => bbox,
        }
    }

    /// Leaves name objects that exist, and each branch stores the union of
    /// its children's boxes.
    pub open spec fn wf(self, boxes: Seq<Aabb>) -> bool
        decreases self,
    {
        match self {
            BvhNode::Leaf(i) => i < boxes.len(),
            BvhNode::Branch { left, right, bbox, .. } => {
                &&& left.wf(boxes)
                &&& right.wf(boxes)
                &&& bbox == Aabb::union_spec(left.box_of(boxes), right.box_of(boxes))
            },
        }
    }

    /// Indices of the objects at the leaves below the node.
    pub open spec fn leaves(self) -> Set<usize>
        decreases self,
    {
        match self {
            BvhNode::Leaf(i) => set![i],
            BvhNode::Branch { left, right, .. } => left.leaves().union(right.leaves()),
        }
    }

    /// At a branch, no object below the left child starts later along the
    /// split axis than an object below the right child.
    pub open spec fn split_ordered(self, boxes: Seq<Aabb>) -> bool {
        match self {
            BvhNode::Leaf(_) => true,
            BvhNode::Branch { left, right, axis, .. } => {
                &&& axis < 3
                &&& forall|i: usize, j: usize| #[trigger]
                    left.leaves().contains(i) && #[trigger] right.leaves().contains(j) ==> box_key(
                        boxes,
                        axis as int,
                        i,
                    ) <= box_key(boxes, axis as int, j)
            },
        }
    }

    /// Every branch of the tree is split ordered along its axis.
    pub open spec fn ordered(self, boxes: Seq<Aabb>) -> bool
        decreases self,
    {
        match self {
            BvhNode::Leaf(_) => true,
            BvhNode::Branch { left, right, .. } => {
                &&& self.split_ordered(boxes)
                &&& left.ordered(boxes)
                &&& right.ordered(boxes)
            },
        }
    }

    /// The box stored at a branch.
    fn branch_box(&self) -> (r: Aabb)
        requires
            self is Branch,
        ensures
            r == self->bbox,
    {
        match self {
            BvhNode::Branch { bbox, .. } => *bbox,
            BvhNode::Leaf(_) => Aabb::empty(),
        }
    }

    /// Sorts positions `start .. end` of `order` by the lower bound on `axis`
    /// of the boxes they name.
    fn sort_range(boxes: &Vec<Aabb>, order: &mut Vec<usize>, start: usize, end: usize, axis: u8)
        requires
            start <= end <= old(order)@.len(),
            axis < 3,
            forall|k: int| 0 <= k < old(order)@.len() ==> #[trigger] old(order)@[k] < boxes@.len(),
        ensures
            final(order)@.len() == old(order)@.len(),
            forall|k: int| 0 <= k < final(order)@.len() ==> #[trigger] final(order)@[k] < boxes@.len(),
            forall|k: int|
                0 <= k < old(order)@.len() && !(start <= k < end) ==> #[trigger] final(order)@[k]
                    == old(order)@[k],
            range_set(final(order)@, start as int, end as int) == range_set(
                old(order)@,
                start as int,
                end as int,
            ),
            range_bag(final(order)@, start as int, end as int) == range_bag(
                old(order)@,
                start as int,
                end as int,
            ),
            forall|a: int, b: int|
                start <= a < b < end ==> box_key(boxes@, axis as int, #[trigger] final(order)@[a])
                    <= box_key(boxes@, axis as int, #[trigger] final(order)@[b]),
    {
        let ghost orig = order@;
        let mut i: usize = start;
        while i < end
            invariant
                start <= i <= end <= order@.len(),
                order@.len() == orig.len(),
                axis < 3,
                forall|k: int| 0 <= k < order@.len() ==> #[trigger] order@[k] < boxes@.len(),
                forall|k: int|
                    0 <= k < orig.len() && !(start <= k < end) ==> #[trigger] order@[k] == orig[k],
                range_set(order@, start as int, end as int) == range_set(
                    orig,
                    start as int,
                    end as int,
                ),
                range_bag(order@, start as int, end as int) == range_bag(
                    orig,
                    start as int,
                    end as int,
                ),
                forall|a: int, b: int|
                    start <= a < b < i ==> box_key(boxes@, axis as int, #[trigger] order@[a])
                        <= box_key(boxes@, axis as int, #[trigger] order@[b]),
                forall|a: int, b: int|
                    start <= a < i <= b < end ==> box_key(boxes@, axis as int, #[trigger] order@[a])
                        <= box_key(boxes@, axis as int, #[trigger] order@[b]),
            decreases end - i,
        {
            let mut m: usize = i;
            let mut j: usize = i + 1;
            while j < end
                invariant
                    i <= m < j <= end,
                    end <= order@.len(),
                    axis < 3,
                    forall|k: int| 0 <= k < order@.len() ==> #[trigger] order@[k] < boxes@.len(),
                    forall|b: int|
                        i <= b < j ==> box_key(boxes@, axis as int, order@[m as int]) <= box_key(
                            boxes@,
                            axis as int,
                            #[trigger] order@[b],
                        ),
                decreases end - j,
            {
                if boxes[order[j]].axis(axis).min < boxes[order[m]].axis(axis).min {
                    m = j;
                }
                j = j + 1;
            }
            let ghost before = order@;
            let vi = order[i];
            let vm = order[m];
            order.set(i, vm);
            order.set(m, vi);
            proof {
                lemma_swap_range_set(before, start as int, end as int, i as int, m as int);
                lemma_swap_range_bag(before, start as int, end as int, i as int, m as int);
                assert(order@ == before.update(i as int, before[m as int]).update(
                    m as int,
                    before[i as int],
                ));
            }
            i = i + 1;
        }
    }

    /// Builds the hierarchy over the objects named at positions
    /// `start .. end` of `order`, reordering that range. A random axis is
    /// drawn; one object becomes a branch with that object on both sides; two
    /// objects are ordered by the lower bound of their boxes on the axis;
    /// more are sorted that way and split at the middle position.
    pub fn new(boxes: &Vec<Aabb>, order: &mut Vec<usize>, start: usize, end: usize) -> (r: BvhNode)
        requires
            start < end <= old(order)@.len(),
            forall|k: int| 0 <= k < old(order)@.len() ==> #[trigger] old(order)@[k] < boxes@.len(),
        ensures
            r is Branch,
            r.wf(boxes@),
            r.ordered(boxes@),
            end - start >= 3 ==> r->left.leaves() == range_set(
                final(order)@,
                start as int,
                start + (end - start) / 2,
            ) && r->right.leaves() == range_set(
                final(order)@,
                start + (end - start) / 2,
                end as int,
            ),
            range_bag(final(order)@, start as int, end as int) == range_bag(
                old(order)@,
                start as int,
                end as int,
            ),
            r.leaves() == range_set(final(order)@, start as int, end as int),
            final(order)@.len() == old(order)@.len(),
            forall|k: int| 0 <= k < final(order)@.len() ==> #[trigger] final(order)@[k] < boxes@.len(),
            forall|k: int|
                0 <= k < old(order)@.len() && !(start <= k < end) ==> #[trigger] final(order)@[k]
                    == old(order)@[k],
            range_set(final(order)@, start as int, end as int) == range_set(
                old(order)@,
                start as int,
                end as int,
            ),
        decreases end - start,
    {
        let axis = random_int(0, 2) as u8;
        let span = end - start;
        if span == 1 {
            let i = order[start];
            let b = boxes[i];
            let bbox = Aabb::from_boxes(&b, &b);
            let r = BvhNode::Branch {
                left: Box::new(BvhNode::Leaf(i)),
                right: Box::new(BvhNode::Leaf(i)),
                bbox,
                axis,
            };
            proof {
                assert(range_set(order@, start as int, end as int) =~= set![i]);
                assert(BvhNode::Leaf(i).wf(boxes@));
                assert(BvhNode::Leaf(i).ordered(boxes@));
                assert(BvhNode::Leaf(i).leaves() == set![i]);
                assert(set![i].union(set![i]) =~= set![i]);
            }
            r
        } else if span == 2 {
            let a = order[start];
            let b = order[start + 1];
            let (l, r) = if boxes[a].axis(axis).min < boxes[b].axis(axis).min {
                (a, b)
            } else {
                (b, a)
            };
            let bbox = Aabb::from_boxes(&boxes[l], &boxes[r]);
            let node = BvhNode::Branch {
                left: Box::new(BvhNode::Leaf(l)),
                right: Box::new(BvhNode::Leaf(r)),
                bbox,
                axis,
            };
            proof {
                assert(range_set(order@, start as int, end as int) =~= set![l, r]);
                assert(BvhNode::Leaf(l).wf(boxes@));
                assert(BvhNode::Leaf(l).ordered(boxes@));
                assert(BvhNode::Leaf(r).ordered(boxes@));
                assert(BvhNode::Leaf(r).wf(boxes@));
                assert(BvhNode::Leaf(l).leaves() == set![l]);
                assert(BvhNode::Leaf(r).leaves() == set![r]);
                assert(set![l].union(set![r]) =~= set![l, r]);
            }
            node
        } else {
            Self::sort_range(boxes, order, start, end, axis);
            let ghost sorted = order@;
            let mid = start + span / 2;
            let left = Self::new(boxes, order, start, mid);
            let ghost after_left = order@;
            let right = Self::new(boxes, order, mid, end);
            proof {
                lemma_agree_range_set(order@, after_left, start as int, mid as int);
                lemma_agree_range_set(after_left, sorted, mid as int, end as int);
                lemma_split_range_set(order@, start as int, mid as int, end as int);
                lemma_split_range_set(after_left, start as int, mid as int, end as int);
                lemma_split_range_set(sorted, start as int, mid as int, end as int);
                lemma_agree_range_bag(order@, after_left, start as int, mid as int);
                lemma_agree_range_bag(after_left, sorted, mid as int, end as int);
                lemma_split_range_bag(order@, start as int, mid as int, end as int);
                lemma_split_range_bag(sorted, start as int, mid as int, end as int);
            }
            proof {
                assert forall|i: usize, j: usize| #[trigger]
                    left.leaves().contains(i) && #[trigger] right.leaves().contains(j) implies box_key(
                    boxes@,
                    axis as int,
                    i,
                ) <= box_key(boxes@, axis as int, j) by {
                    assert(range_set(sorted, start as int, mid as int).contains(i));
                    assert(range_set(sorted, mid as int, end as int).contains(j));
                    let a = choose|a: int| start <= a < mid && sorted[a] == i;
                    let b = choose|b: int| mid <= b < end && sorted[b] == j;
                    assert(box_key(boxes@, axis as int, sorted[a]) <= box_key(
                        boxes@,
                        axis as int,
                        sorted[b],
                    ));
                }
            }
            let bbox = Aabb::from_boxes(&left.branch_box(), &right.branch_box());
            BvhNode::Branch { left: Box::new(left), right: Box::new(right), bbox, axis }
        }
    }

    /// The hierarchy over all objects of `list`, which must hold only bounded
    /// objects; an empty list gives a hierarchy without root.
    pub fn from_list(list: HittableList) -> (r: Bvh)
        requires
            all_bounded(list.objects@),
        ensures
            r.wf(),
            r.objects@ == list.objects@,
    {
        let n = list.objects.len();
        if n == 0 {
            return Bvh { objects: list.objects, root: None, bbox: Aabb::empty() };
        }
        let mut boxes: Vec<Aabb> = Vec::new();
        let mut order: Vec<usize> = Vec::new();
        let mut i: usize = 0;
        while i < n
            invariant
                i <= n == list.objects@.len(),
                all_bounded(list.objects@),
                boxes@.len() == i,
                order@.len() == i,
                forall|k: int| 0 <= k < i ==> #[trigger] order@[k] == k,
                forall|k: int|
                    0 <= k < i ==> #[trigger] boxes@[k] == list.objects@[k].bbox_spec().unwrap(),
            decreases n - i,
        {
            boxes.push(list.objects[i].bounding_box().unwrap());
            order.push(i);
            i = i + 1;
        }
        proof {
            assert(boxes@ =~= object_boxes(list.objects@));
        }
        let ghost initial = order@;
        let root = Self::new(&boxes, &mut order, 0, n);
        proof {
            assert forall|k: usize| root.leaves().contains(k) implies k < n by {
                assert(range_set(initial, 0, n as int).contains(k));
                let w = choose|w: int| 0 <= w < n && initial[w] == k;
            }
            assert forall|k: usize| k < n implies #[trigger] root.leaves().contains(k) by {
                assert(initial[k as int] == k);
                assert(range_set(initial, 0, n as int).contains(k));
            }
        }
        let bbox = root.branch_box();
        Bvh { objects: list.objects, root: Some(root), bbox }
    }
}

/// A bounding volume hierarchy together with the objects it indexes; it has no
/// root when there are no objects.
#[derive(Debug)]
pub struct Bvh {
    pub objects: Vec<Object>,
    pub root: Option<BvhNode>,
    pub bbox: Aabb,
}

impl Bvh {
    /// Without objects there is no root and the box is empty. Otherwise the
    /// root is a branch, the tree is well formed and ordered over the objects'
    /// boxes, its leaves are exactly the objects' indices, and `bbox` is the
    /// root's box.
    pub open spec fn wf(&self) -> bool {
        &&& all_bounded(self.objects@)
        &&& match self.root {
            None => self.objects@.len() == 0 && self.bbox == Aabb::empty_spec(),
            Some(root) => {
                &&& self.objects@.len() > 0
                &&& root is Branch
                &&& root.wf(object_boxes(self.objects@))
                &&& root.ordered(object_boxes(self.objects@))
                &&& self.bbox == root->bbox
                &&& forall|k: usize| #[trigger] root.leaves().contains(k) <==> k < self.objects@.len()
            },
        }
    }
}

/// Each node's box holds the box of every object at a leaf below it.
pub proof fn lemma_node_encloses_leaves(node: BvhNode, boxes: Seq<Aabb>)
    requires
        node.wf(boxes),
    ensures
        forall|i: usize| #[trigger]
            node.leaves().contains(i) ==> node.box_of(boxes).encloses(boxes[i as int]),
    decreases node,
{
    match node {
        BvhNode::Leaf(i) => {
            assert(node.leaves() =~= set![i]);
        },
        BvhNode::Branch { left, right, bbox, .. } => {
            lemma_node_encloses_leaves(*left, boxes);
            lemma_node_encloses_leaves(*right, boxes);
            lemma_union_encloses(left.box_of(boxes), right.box_of(boxes));
            assert(node.leaves() == left.leaves().union(right.leaves()));
            assert forall|i: usize| #[trigger]
                node.leaves().contains(i) implies node.box_of(boxes).encloses(boxes[i as int]) by {
                if left.leaves().contains(i) {
                    lemma_encloses_transitive(bbox, left.box_of(boxes), boxes[i as int]);
                } else {
                    lemma_encloses_transitive(bbox, right.box_of(boxes), boxes[i as int]);
                }
            }
        },
    }
}

/// A node's box lies inside any box that holds, bound by bound, the boxes of
/// all objects below it.
pub proof fn lemma_node_box_inside(node: BvhNode, boxes: Seq<Aabb>, c: Aabb)
    requires
        node.wf(boxes),
        forall|i: usize| #[trigger] node.leaves().contains(i) ==> boxes[i as int].inside(c),
    ensures
        node.box_of(boxes).inside(c),
    decreases node,
{
    match node {
        BvhNode::Leaf(i) => {
            assert(node.leaves().contains(i));
        },
        BvhNode::Branch { left, right, .. } => {
            assert(node.leaves() == left.leaves().union(right.leaves()));
            assert forall|i: usize| #[trigger] left.leaves().contains(i) implies boxes[i as int].inside(c) by {
                assert(node.leaves().contains(i));
            }
            assert forall|i: usize| #[trigger] right.leaves().contains(i) implies boxes[i as int].inside(c) by {
                assert(node.leaves().contains(i));
            }
            lemma_node_box_inside(*left, boxes, c);
            lemma_node_box_inside(*right, boxes, c);
        },
    }
}

/// The box of a hierarchy lies inside any box that holds, bound by bound, the
/// box of each of its objects.
pub proof fn lemma_bvh_box_inside(bvh: &Bvh, c: Aabb)
    requires
        bvh.wf(),
        forall|i: int|
            0 <= i < bvh.objects@.len() ==> (#[trigger] bvh.objects@[i]).bbox_spec().unwrap().inside(c),
    ensures
        bvh.objects@.len() > 0 ==> bvh.bbox.inside(c),
{
    if let Some(root) = bvh.root {
        let boxes = object_boxes(bvh.objects@);
        assert forall|i: usize| #[trigger] root.leaves().contains(i) implies boxes[i as int].inside(
            c,
        ) by {
            assert(bvh.objects@[i as int].bbox_spec().unwrap().inside(c));
        }
        lemma_node_box_inside(root, boxes, c);
    }
}

/// Every object of `objs` has a box holding at least one point.
pub open spec fn all_nonempty(objs: Seq<Object>) -> bool {
    forall|i: int|
        0 <= i < objs.len() ==> ((#[trigger] objs[i]).bbox_spec() matches Some(b) && b.nonempty())
}

/// A nonempty box lies inside its union with any box, on either side.
proof fn lemma_inside_union(a: Aabb, b: Aabb)
    requires
        a.nonempty(),
    ensures
        a.inside(Aabb::union_spec(a, b)),
        a.inside(Aabb::union_spec(b, a)),
{
}

/// The box of each object of a sequence lies inside the union of them all.
proof fn lemma_member_inside_union_all(objs: Seq<Object>, i: int)
    requires
        all_nonempty(objs),
        0 <= i < objs.len(),
    ensures
        objs[i].bbox_spec().unwrap().inside(union_all(objs)),
        union_all(objs).nonempty(),
    decreases objs.len(),
{
    let rest = objs.drop_last();
    let last = objs.last().bbox_spec().unwrap();
    assert(objs[objs.len() - 1].bbox_spec() is Some);
    lemma_inside_union(last, union_all(rest));
    if i < objs.len() - 1 {
        assert(rest[i] == objs[i]);
        assert forall|k: int| 0 <= k < rest.len() implies ((#[trigger] rest[k]).bbox_spec() matches Some(b)
            && b.nonempty()) by {
            assert(rest[k] == objs[k]);
        }
        lemma_member_inside_union_all(rest, i);
        lemma_inside_union(union_all(rest), last);
    }
}

/// The union of a nonempty sequence of boxes lies inside any box that holds
/// each of them.
proof fn lemma_union_all_inside(objs: Seq<Object>, c: Aabb)
    requires
        objs.len() > 0,
        all_bounded(objs),
        forall|i: int| 0 <= i < objs.len() ==> (#[trigger] objs[i]).bbox_spec().unwrap().inside(c),
    ensures
        union_all(objs).inside(c),
    decreases objs.len(),
{
    let rest = objs.drop_last();
    assert(objs[objs.len() - 1].bbox_spec() is Some);
    assert(objs[objs.len() - 1].bbox_spec().unwrap().inside(c));
    if rest.len() == 0 {
        assert(union_all(rest) == Aabb::empty_spec());
        lemma_union_empty_identity(objs.last().bbox_spec().unwrap());
    } else {
        assert forall|k: int| 0 <= k < rest.len() implies (#[trigger] rest[k]).bbox_spec().unwrap().inside(
            c,
        ) by {
            assert(rest[k] == objs[k]);
        }
        assert forall|k: int| 0 <= k < rest.len() implies (#[trigger] rest[k]).bbox_spec() is Some by {
            assert(rest[k] == objs[k]);
        }
        lemma_union_all_inside(rest, c);
    }
}

/// The box of each object at a leaf lies inside the node's box.
proof fn lemma_leaf_inside_node(node: BvhNode, boxes: Seq<Aabb>, i: usize)
    requires
        node.wf(boxes),
        node.leaves().contains(i),
        forall|k: int| 0 <= k < boxes.len() ==> (#[trigger] boxes[k]).nonempty(),
    ensures
        boxes[i as int].inside(node.box_of(boxes)),
        node.box_of(boxes).nonempty(),
    decreases node,
{
    match node {
        BvhNode::Leaf(j) => {
            assert(node.leaves() =~= set![j]);
        },
        BvhNode::Branch { left, right, .. } => {
            assert(node.leaves() == left.leaves().union(right.leaves()));
            if left.leaves().contains(i) {
                lemma_leaf_inside_node(*left, boxes, i);
                lemma_inside_union(left.box_of(boxes), right.box_of(boxes));
            } else {
                lemma_leaf_inside_node(*right, boxes, i);
                lemma_inside_union(right.box_of(boxes), left.box_of(boxes));
            }
        },
    }
}

/// Building a hierarchy over a list keeps the list's box: the root's box is
/// the union of the boxes of all objects, when each of them holds a point.
pub proof fn lemma_bvh_keeps_box(list: HittableList, bvh: Bvh)
    requires
        list.wf(),
        bvh.wf(),
        bvh.objects@ == list.objects@,
        list.objects@.len() <= usize::MAX,
        all_nonempty(list.objects@),
    ensures
        bvh.bbox == list.bbox,
{
    let objs = list.objects@;
    let boxes = object_boxes(objs);
    if objs.len() == 0 {
        assert(union_all(objs) == Aabb::empty_spec());
    } else {
        let root = bvh.root.unwrap();
        assert forall|k: int| 0 <= k < boxes.len() implies (#[trigger] boxes[k]).nonempty() by {
            assert(objs[k].bbox_spec() is Some);
        }
        assert forall|i: usize| #[trigger] root.leaves().contains(i) implies boxes[i as int].inside(
            list.bbox,
        ) by {
            lemma_member_inside_union_all(objs, i as int);
        }
        lemma_node_box_inside(root, boxes, list.bbox);
        assert forall|i: int| 0 <= i < objs.len() implies (#[trigger] objs[i]).bbox_spec().unwrap().inside(
            bvh.bbox,
        ) by {
            let k = i as usize;
            assert(k as int == i);
            assert(root.leaves().contains(k));
            lemma_leaf_inside_node(root, boxes, k);
            assert(boxes[i] == objs[i].bbox_spec().unwrap());
            assert(root.box_of(boxes) == bvh.bbox);
        }
        lemma_union_all_inside(objs, bvh.bbox);
    }
}

/// Every object of a nonempty hierarchy sits at a leaf, and the hierarchy's box
/// holds its box, so a ray that misses a node's box misses every object below
/// it.
pub proof fn lemma_bvh_covers(bvh: &Bvh)
    requires
        bvh.wf(),
        bvh.objects@.len() > 0,
    ensures
        bvh.root is Some,
        forall|i: usize|
            i < bvh.objects@.len() ==> #[trigger] bvh.root->Some_0.leaves().contains(i)
                && bvh.bbox.encloses(bvh.objects@[i as int].bbox_spec().unwrap()),
{
    let root = bvh.root->Some_0;
    let boxes = object_boxes(bvh.objects@);
    lemma_node_encloses_leaves(root, boxes);
    assert(root.box_of(boxes) == bvh.bbox);
    assert forall|i: usize| i < bvh.objects@.len() implies #[trigger] bvh.root->Some_0.leaves().contains(
        i,
    ) && bvh.bbox.encloses(bvh.objects@[i as int].bbox_spec().unwrap()) by {
        assert(root.leaves().contains(i));
        assert(boxes[i as int] == bvh.objects@[i as int].bbox_spec().unwrap());
        assert(root.box_of(boxes).encloses(boxes[i as int]));
    }
}

} // verus!
