//! Bounding-volume-hierarchy construction.
//!
//! [`recursive_build`] turns a non-empty slice of primitives into a strict
//! binary tree of nested bounds, splitting each range at its index midpoint
//! along the axis where the range's centroids spread widest, and falling back
//! to a leaf when all centroids coincide along that axis. [`linearize_bvh`]
//! then lays the tree out in a flat, depth-first, left-first array whose
//! records a GPU traversal kernel can follow: an interior node's left child
//! sits right after it, and the index of its right child is stored in its
//! `offset` field.
//!
//! Every step is specified by a recursive spec function ([`build_spec`],
//! [`lin_spec`]) and the executable code is proved to compute exactly that.

use vstd::prelude::*;

use crate::aabb::{AABB, Bounds, Vec3i};
use crate::object::{Object, ObjectType};

verus! {

/// A node of the transient build tree: either a leaf covering a contiguous
/// range of primitives, or an interior node owning its two children.
#[derive(Debug)]
pub enum BVHBuildNode {
    Leaf { bounds: Bounds, first_obj_offset: u32, n_obj: u32 },
    Interior { bounds: Bounds, split_axis: u32, left: Box<BVHBuildNode>, right: Box<BVHBuildNode> },
}

impl BVHBuildNode {
    /// The bounds stored at the root of this subtree.
    pub open spec fn bounds_spec(self) -> Bounds {
        match self {
            BVHBuildNode::Leaf { bounds, .. } => bounds,
            BVHBuildNode::Interior { bounds, .. } => bounds,
        }
    }

    /// How many nodes this subtree holds.
    pub open spec fn size(self) -> nat
        decreases self,
    {
        match self {
            BVHBuildNode::Leaf { .. } => 1,
            BVHBuildNode::Interior { left, right, .. } => 1 + left.size() + right.size(),
        }
    }

    /// Every leaf covers at least one primitive. All trees the builder
    /// produces satisfy this; the linear layout can be folded back into the
    /// tree only under it, since an empty leaf and an interior node would
    /// share the record shape.
    pub open spec fn wf(self) -> bool
        decreases self,
    {
        match self {
            BVHBuildNode::Leaf { n_obj, .. } => n_obj >= 1,
            BVHBuildNode::Interior { left, right, .. } => left.wf() && right.wf(),
        }
    }

    /// A placeholder node: a zero-sized leaf at the origin.
    pub fn default() -> (n: BVHBuildNode)
        ensures
            n == (BVHBuildNode::Leaf {
                bounds: Bounds { min: Vec3i { x: 0, y: 0, z: 0 }, max: Vec3i { x: 0, y: 0, z: 0 } },
                first_obj_offset: 0,
                n_obj: 0,
            }),
    {
        BVHBuildNode::Leaf { bounds: Bounds::empty(), first_obj_offset: 0, n_obj: 0 }
    }

    /// A leaf covering `n` primitives starting at `first` in the ordered
    /// primitive array.
    pub fn init_leaf(first: u32, n: u32, bounds: Bounds) -> (node: BVHBuildNode)
        ensures
            node == (BVHBuildNode::Leaf { bounds, first_obj_offset: first, n_obj: n }),
    {
        BVHBuildNode::Leaf { bounds, first_obj_offset: first, n_obj: n }
    }

    /// An interior node over two finished children; its bounds is the union
    /// of theirs.
    pub fn init_interior(axis: u32, c0: BVHBuildNode, c1: BVHBuildNode) -> (node: BVHBuildNode)
        ensures
            node == (BVHBuildNode::Interior {
                bounds: Bounds::union_spec(c0.bounds_spec(), c1.bounds_spec()),
                split_axis: axis,
                left: Box::new(c0),
                right: Box::new(c1),
            }),
    {
        let c0_bounds = c0.bounds();
        let c1_bounds = c1.bounds();
        let bounds = Bounds::union(c0_bounds, c1_bounds);
        BVHBuildNode::Interior { bounds, split_axis: axis, left: Box::new(c0), right: Box::new(c1) }
    }

    /// The bounds stored at the root of this subtree.
    pub fn bounds(&self) -> (b: Bounds)
        ensures
            b == self.bounds_spec(),
    {
        match self {
            BVHBuildNode::Leaf { bounds, .. } => *bounds,
            BVHBuildNode::Interior { bounds, .. } => *bounds,
        }
    }
}

/// The union of the bounds of primitives `start..end`, folded left to right
/// from the first one. Meaningful for `start < end <= s.len()`.
pub open spec fn range_bounds(s: Seq<AABB>, start: int, end: int) -> Bounds
    decreases end - start,
{
    if end <= start + 1 {
        s[start].bounds
    } else {
        Bounds::union_spec(range_bounds(s, start, end - 1), s[end - 1].bounds)
    }
}

/// The least doubled centroid along axis `a` among primitives `start..end`.
pub open spec fn cent_lo(s: Seq<AABB>, start: int, end: int, a: int) -> int
    decreases end - start,
{
    if end <= start + 1 {
        s[start].bounds.centroid2(a)
    } else {
        let prev = cent_lo(s, start, end - 1, a);
        let last = s[end - 1].bounds.centroid2(a);
        if prev <= last { prev } else { last }
    }
}

/// The greatest doubled centroid along axis `a` among primitives `start..end`.
pub open spec fn cent_hi(s: Seq<AABB>, start: int, end: int, a: int) -> int
    decreases end - start,
{
    if end <= start + 1 {
        s[start].bounds.centroid2(a)
    } else {
        let prev = cent_hi(s, start, end - 1, a);
        let last = s[end - 1].bounds.centroid2(a);
        if prev >= last { prev } else { last }
    }
}

/// The spread of the centroids of primitives `start..end` along axis `a`.
pub open spec fn cent_ext(s: Seq<AABB>, start: int, end: int, a: int) -> int {
    cent_hi(s, start, end, a) - cent_lo(s, start, end, a)
}

/// The split axis for the range `start..end`: the axis along which the
/// centroids spread widest; x wins ties with y and z, and y wins ties with z.
pub open spec fn split_axis_spec(s: Seq<AABB>, start: int, end: int) -> int {
    let e0 = cent_ext(s, start, end, 0);
    let e1 = cent_ext(s, start, end, 1);
    let e2 = cent_ext(s, start, end, 2);
    if e0 >= e1 && e0 >= e2 {
        0
    } else if e1 >= e2 {
        1
    } else {
        2
    }
}

/// All centroids of `start..end` coincide along the chosen split axis, so a
/// split would make an empty side: the builder emits a leaf instead.
pub open spec fn range_degenerate(s: Seq<AABB>, start: int, end: int) -> bool {
    cent_ext(s, start, end, split_axis_spec(s, start, end)) == 0
}

/// The tree the builder produces for primitives `start..end`: a leaf for a
/// single primitive or a degenerate range, otherwise an interior node whose
/// children cover the two halves of the range around the index midpoint.
pub open spec fn build_spec(s: Seq<AABB>, start: int, end: int) -> BVHBuildNode
    decreases end - start,
{
    if end <= start + 1 || range_degenerate(s, start, end) {
        BVHBuildNode::Leaf {
            bounds: range_bounds(s, start, end),
            first_obj_offset: start as u32,
            n_obj: (end - start) as u32,
        }
    } else {
        let mid = start + (end - start) / 2;
        let l = build_spec(s, start, mid);
        let r = build_spec(s, mid, end);
        BVHBuildNode::Interior {
            bounds: Bounds::union_spec(l.bounds_spec(), r.bounds_spec()),
            split_axis: split_axis_spec(s, start, end) as u32,
            left: Box::new(l),
            right: Box::new(r),
        }
    }
}

/// Every subtree holds at least one node and at most one short of twice its
/// primitive count.
pub proof fn lemma_size_bounds(s: Seq<AABB>, start: int, end: int)
    requires
        start < end,
    ensures
        1 <= build_spec(s, start, end).size() <= 2 * (end - start) - 1,
    decreases end - start,
{
    if end <= start + 1 || range_degenerate(s, start, end) {
    } else {
        let mid = start + (end - start) / 2;
        lemma_size_bounds(s, start, mid);
        lemma_size_bounds(s, mid, end);
    }
}

/// Builds the subtree for primitives `start..end` of `aabbs`, counting every
/// node it makes into `total_nodes`. The result is exactly the tree
/// [`build_spec`] describes.
pub fn recursive_build(aabbs: &Vec<AABB>, start: usize, end: usize, total_nodes: &mut u32) -> (node: BVHBuildNode)
    requires
        start < end,
        end <= aabbs@.len(),
        end <= u32::MAX,
        *old(total_nodes) + 2 * (end - start) - 1 <= u32::MAX,
    ensures
        node == build_spec(aabbs@, start as int, end as int),
        *final(total_nodes) == *old(total_nodes) + node.size(),
    decreases end - start,
{
    proof {
        lemma_size_bounds(aabbs@, start as int, end as int);
    }
    *total_nodes = *total_nodes + 1;

    let ghost s = aabbs@;
    let mut bounds = aabbs[start].bounds;
    let mut i = start + 1;
    while i < end
        invariant
            start < i <= end,
            end <= s.len(),
            s == aabbs@,
            bounds == range_bounds(s, start as int, i as int),
        decreases end - i,
    {
        bounds = Bounds::union(bounds, aabbs[i].bounds);
        i = i + 1;
    }

    let n_obj = end - start;
    if n_obj == 1 {
        return BVHBuildNode::init_leaf(start as u32, 1, bounds);
    }

    let mut lo0 = aabbs[start].bounds.centroid2_axis(0);
    let mut hi0 = lo0;
    let mut lo1 = aabbs[start].bounds.centroid2_axis(1);
    let mut hi1 = lo1;
    let mut lo2 = aabbs[start].bounds.centroid2_axis(2);
    let mut hi2 = lo2;
    let mut j = start + 1;
    while j < end
        invariant
            start < j <= end,
            end <= s.len(),
            s == aabbs@,
            -0x1_0000_0000 <= lo0 <= 0x1_0000_0000,
            -0x1_0000_0000 <= hi0 <= 0x1_0000_0000,
            -0x1_0000_0000 <= lo1 <= 0x1_0000_0000,
            -0x1_0000_0000 <= hi1 <= 0x1_0000_0000,
            -0x1_0000_0000 <= lo2 <= 0x1_0000_0000,
            -0x1_0000_0000 <= hi2 <= 0x1_0000_0000,
            lo0 as int == cent_lo(s, start as int, j as int, 0),
            hi0 as int == cent_hi(s, start as int, j as int, 0),
            lo1 as int == cent_lo(s, start as int, j as int, 1),
            hi1 as int == cent_hi(s, start as int, j as int, 1),
            lo2 as int == cent_lo(s, start as int, j as int, 2),
            hi2 as int == cent_hi(s, start as int, j as int, 2),
        decreases end - j,
    {
        let c0 = aabbs[j].bounds.centroid2_axis(0);
        let c1 = aabbs[j].bounds.centroid2_axis(1);
        let c2 = aabbs[j].bounds.centroid2_axis(2);
        if c0 < lo0 { lo0 = c0; }
        if c0 > hi0 { hi0 = c0; }
        if c1 < lo1 { lo1 = c1; }
        if c1 > hi1 { hi1 = c1; }
        if c2 < lo2 { lo2 = c2; }
        if c2 > hi2 { hi2 = c2; }
        j = j + 1;
    }

    // Doubled centroids fit in 33 bits, so the spreads fit in 64.
    let e0 = hi0 - lo0;
    let e1 = hi1 - lo1;
    let e2 = hi2 - lo2;
    let dim: usize = if e0 >= e1 && e0 >= e2 { 0 } else if e1 >= e2 { 1 } else { 2 };
    let ghost dim_spec = split_axis_spec(s, start as int, end as int);
    proof {
        assert(dim as int == dim_spec);
    }
    let (lo, hi) = if dim == 0 { (lo0, hi0) } else if dim == 1 { (lo1, hi1) } else { (lo2, hi2) };

    if lo == hi {
        return BVHBuildNode::init_leaf(start as u32, n_obj as u32, bounds);
    }

    let mid = start + (end - start) / 2;
    proof {
        lemma_size_bounds(s, start as int, mid as int);
        lemma_size_bounds(s, mid as int, end as int);
    }
    let left = recursive_build(aabbs, start, mid, total_nodes);
    let right = recursive_build(aabbs, mid, end, total_nodes);
    BVHBuildNode::init_interior(dim as u32, left, right)
}

/// One record of the GPU-facing flat tree: the node's bounds and four
/// unsigned words. For an interior node, `offset` is the array index of its
/// right child (its left child sits at the next index) and `n_obj` is 0; for
/// a leaf, `n_obj` is the primitive count and `offset` and `obj_offset` both
/// hold the start of its primitive range.
#[derive(Clone, Copy, PartialEq, Eq, Structural, Debug)]
pub struct LinearBVHNode {
    pub bounds: Bounds,
    pub offset: u32,
    pub n_obj: u32,
    pub axis: u32,
    pub obj_offset: u32,
}

/// The flat layout of the subtree `t` when its root record lands at array
/// index `at`: the root first, then the whole left subtree, then the right,
/// with the right child's index stored in the root's `offset` field.
pub open spec fn lin_spec(t: BVHBuildNode, at: int) -> Seq<LinearBVHNode>
    decreases t,
{
    match t {
        BVHBuildNode::Leaf { bounds, first_obj_offset, n_obj } => seq![
            LinearBVHNode {
                bounds,
                offset: first_obj_offset,
                n_obj,
                axis: 0,
                obj_offset: first_obj_offset,
            },
        ],
        BVHBuildNode::Interior { bounds, split_axis, left, right } => {
            let ls = lin_spec(*left, at + 1);
            let me = LinearBVHNode {
                bounds,
                offset: (at + 1 + ls.len()) as u32,
                n_obj: 0,
                axis: split_axis,
                obj_offset: 0,
            };
            seq![me] + ls + lin_spec(*right, at + 1 + ls.len() as int)
        },
    }
}

/// A subtree's flat layout holds exactly one record per node.
pub proof fn lemma_lin_len(t: BVHBuildNode, at: int)
    ensures
        lin_spec(t, at).len() == t.size(),
    decreases t,
{
    match t {
        BVHBuildNode::Leaf { .. } => {},
        BVHBuildNode::Interior { left, right, .. } => {
            lemma_lin_len(*left, at + 1);
            lemma_lin_len(*right, at + 1 + lin_spec(*left, at + 1).len() as int);
        },
    }
}

/// Appends the flat layout of `node` to `linear_nodes`, exactly as
/// [`lin_spec`] describes it for the position the array has grown to.
pub fn linearize_bvh(node: &BVHBuildNode, linear_nodes: &mut Vec<LinearBVHNode>)
    requires
        old(linear_nodes)@.len() + node.size() <= u32::MAX,
    ensures
        final(linear_nodes)@ == old(linear_nodes)@ + lin_spec(*node, old(linear_nodes)@.len() as int),
    decreases *node,
{
    proof {
        lemma_lin_len(*node, old(linear_nodes)@.len() as int);
    }
    match node {
        BVHBuildNode::Leaf { bounds, first_obj_offset, n_obj } => {
            linear_nodes.push(LinearBVHNode {
                bounds: *bounds,
                offset: *first_obj_offset,
                n_obj: *n_obj,
                axis: 0,
                obj_offset: *first_obj_offset,
            });
        },
        BVHBuildNode::Interior { bounds, split_axis, left, right } => {
            let ghost at = old(linear_nodes)@.len() as int;
            let ghost ls = lin_spec(**left, at + 1);
            let ghost rs = lin_spec(**right, at + 1 + ls.len() as int);
            proof {
                lemma_lin_len(**left, at + 1);
                lemma_lin_len(**right, at + 1 + ls.len() as int);
                lemma_size_pos(**left);
                lemma_size_pos(**right);
            }
            let my_index = linear_nodes.len();
            // The right child's index is known only once the left subtree is
            // laid out; a placeholder goes in first and is patched below.
            linear_nodes.push(LinearBVHNode {
                bounds: *bounds,
                offset: 0,
                n_obj: 0,
                axis: *split_axis,
                obj_offset: 0,
            });
            linearize_bvh(&**left, linear_nodes);
            let right_index = linear_nodes.len();
            let mut me = linear_nodes[my_index];
            me.offset = right_index as u32;
            linear_nodes.set(my_index, me);
            linearize_bvh(&**right, linear_nodes);
            proof {
                assert(linear_nodes@ =~= old(linear_nodes)@ + lin_spec(
                    *node,
                    old(linear_nodes)@.len() as int,
                ));
            }
        },
    }
}

/// The builder's fault: a scene with no primitives has no tree, and the
/// renderer must not traverse one.
#[derive(Clone, Copy, PartialEq, Eq, Structural, Debug)]
pub enum BvhError {
    EmptyScene,
}

/// A finished build tree with its node count.
#[derive(Debug)]
pub struct BVH {
    pub root: BVHBuildNode,
    pub total_nodes: u32,
}

impl BVH {
    /// Builds the tree over all of `aabbs`. An empty scene is refused;
    /// otherwise the root is exactly the tree [`build_spec`] describes and
    /// `total_nodes` counts its nodes.
    pub fn build(aabbs: &Vec<AABB>) -> (r: Result<BVH, BvhError>)
        requires
            2 * aabbs@.len() <= u32::MAX,
        ensures
            aabbs@.len() == 0 <==> r is Err,
            r matches Err(e) ==> e == BvhError::EmptyScene,
            r matches Ok(bvh) ==> {
                &&& bvh.root == build_spec(aabbs@, 0, aabbs@.len() as int)
                &&& bvh.total_nodes == bvh.root.size()
            },
    {
        if aabbs.len() == 0 {
            return Err(BvhError::EmptyScene);
        }
        let mut total_nodes: u32 = 0;
        let root = recursive_build(aabbs, 0, aabbs.len(), &mut total_nodes);
        Ok(BVH { root, total_nodes })
    }
}

/// Builds and linearizes in one call: the contract of the whole subsystem.
/// For a non-empty scene the result is the flat layout of the build tree,
/// one record per node, with the tree's bounds in record 0; an empty scene
/// is the one error.
pub fn build(aabbs: &Vec<AABB>) -> (r: Result<Vec<LinearBVHNode>, BvhError>)
    requires
        2 * aabbs@.len() <= u32::MAX,
    ensures
        aabbs@.len() == 0 <==> r is Err,
        r matches Err(e) ==> e == BvhError::EmptyScene,
        r matches Ok(nodes) ==> {
            &&& nodes@ == lin_spec(build_spec(aabbs@, 0, aabbs@.len() as int), 0)
            &&& nodes@.len() == build_spec(aabbs@, 0, aabbs@.len() as int).size()
            &&& nodes@[0].bounds == range_bounds(aabbs@, 0, aabbs@.len() as int)
        },
{
    let bvh = match BVH::build(aabbs) {
        Ok(bvh) => bvh,
        Err(e) => {
            return Err(e);
        },
    };
    proof {
        lemma_size_bounds(aabbs@, 0, aabbs@.len() as int);
        lemma_lin_len(bvh.root, 0);
        lemma_root_bounds(aabbs@, 0, aabbs@.len() as int);
    }
    let mut linear_nodes: Vec<LinearBVHNode> = Vec::new();
    linearize_bvh(&bvh.root, &mut linear_nodes);
    Ok(linear_nodes)
}

/// How one descriptor resolves to a primitive for the builder: its bounds
/// come from the flat array its kind tag names, indexed by its id.
pub open spec fn aabb_for(obj: Object, sphere_bounds: Seq<Bounds>, mesh_bounds: Seq<Bounds>) -> AABB {
    AABB {
        bounds: if obj.obj_type == 0 {
            sphere_bounds[obj.id as int]
        } else {
            mesh_bounds[obj.id as int]
        },
        type_tag: obj.obj_type,
        prim_index: obj.id,
    }
}

/// Every descriptor carries a known kind tag and an id inside the matching
/// bounds array. An id out of range is a programming error of the caller,
/// so it is a precondition, not a runtime fault.
pub open spec fn objects_resolvable(objs: Seq<Object>, sphere_bounds: Seq<Bounds>, mesh_bounds: Seq<Bounds>) -> bool {
    forall|i: int| 0 <= i < objs.len() ==> {
        &&& (#[trigger] objs[i]).obj_type <= 1
        &&& (objs[i].obj_type == 0 ==> objs[i].id < sphere_bounds.len())
        &&& (objs[i].obj_type == 1 ==> objs[i].id < mesh_bounds.len())
    }
}

/// Resolves each descriptor to the primitive tuple the builder consumes.
pub fn build_aabbs(objects: &Vec<Object>, sphere_bounds: &Vec<Bounds>, mesh_bounds: &Vec<Bounds>) -> (aabbs: Vec<AABB>)
    requires
        objects_resolvable(objects@, sphere_bounds@, mesh_bounds@),
    ensures
        aabbs@.len() == objects@.len(),
        forall|i: int| 0 <= i < objects@.len() ==> #[trigger] aabbs@[i] == aabb_for(
            objects@[i],
            sphere_bounds@,
            mesh_bounds@,
        ),
{
    let mut aabbs: Vec<AABB> = Vec::new();
    let mut i: usize = 0;
    while i < objects.len()
        invariant
            i <= objects@.len(),
            objects_resolvable(objects@, sphere_bounds@, mesh_bounds@),
            aabbs@.len() == i,
            forall|k: int| 0 <= k < i ==> #[trigger] aabbs@[k] == aabb_for(
                objects@[k],
                sphere_bounds@,
                mesh_bounds@,
            ),
        decreases objects@.len() - i,
    {
        let object = objects[i];
        let bounds = match ObjectType::from_u32(object.obj_type) {
            ObjectType::Sphere => sphere_bounds[object.id as usize],
            ObjectType::Mesh => mesh_bounds[object.id as usize],
        };
        aabbs.push(AABB { bounds, type_tag: object.obj_type, prim_index: object.id });
        i = i + 1;
    }
    aabbs
}

/// The whole pipeline of a geometry change: resolve the scene's descriptors
/// to primitive tuples, build the tree over them, and lay it out flat for
/// upload.
pub fn get_bvh(objects: &Vec<Object>, sphere_bounds: &Vec<Bounds>, mesh_bounds: &Vec<Bounds>) -> (r: Result<
    Vec<LinearBVHNode>,
    BvhError,
>)
    requires
        objects_resolvable(objects@, sphere_bounds@, mesh_bounds@),
        2 * objects@.len() <= u32::MAX,
    ensures
        objects@.len() == 0 <==> r is Err,
        r matches Err(e) ==> e == BvhError::EmptyScene,
        r matches Ok(nodes) ==> nodes@ == lin_spec(
            build_spec(
                objects@.map(|i: int, o: Object| aabb_for(o, sphere_bounds@, mesh_bounds@)),
                0,
                objects@.len() as int,
            ),
            0,
        ),
{
    let aabbs = build_aabbs(objects, sphere_bounds, mesh_bounds);
    proof {
        assert(aabbs@ =~= objects@.map(|i: int, o: Object| aabb_for(o, sphere_bounds@, mesh_bounds@)));
    }
    build(&aabbs)
}

/// No range the builder splits is degenerate: every recursion down to single
/// primitives really splits, so every leaf holds exactly one primitive.
pub open spec fn degenerate_free(s: Seq<AABB>, start: int, end: int) -> bool
    decreases end - start,
{
    if end <= start + 1 {
        true
    } else if range_degenerate(s, start, end) {
        false
    } else {
        let mid = start + (end - start) / 2;
        degenerate_free(s, start, mid) && degenerate_free(s, mid, end)
    }
}

/// When no degenerate-leaf fallback triggers, the tree over `k` primitives
/// holds exactly `2k - 1` nodes: one leaf per primitive and one interior
/// node per merge.
pub proof fn lemma_full_node_count(s: Seq<AABB>, start: int, end: int)
    requires
        start < end,
        degenerate_free(s, start, end),
    ensures
        build_spec(s, start, end).size() == 2 * (end - start) - 1,
    decreases end - start,
{
    if end <= start + 1 || range_degenerate(s, start, end) {
    } else {
        let mid = start + (end - start) / 2;
        lemma_full_node_count(s, start, mid);
        lemma_full_node_count(s, mid, end);
    }
}

/// Unions of adjacent ranges merge: the union over `a..b` joined with the
/// union over `b..c` is the union over `a..c`.
pub proof fn lemma_range_bounds_concat(s: Seq<AABB>, a: int, b: int, c: int)
    requires
        a < b < c,
    ensures
        Bounds::union_spec(range_bounds(s, a, b), range_bounds(s, b, c)) == range_bounds(s, a, c),
    decreases c - b,
{
    if c == b + 1 {
    } else {
        lemma_range_bounds_concat(s, a, b, c - 1);
    }
}

/// The root of every subtree carries the union of the bounds of all the
/// primitives in its range; at the top, of all input primitives.
pub proof fn lemma_root_bounds(s: Seq<AABB>, start: int, end: int)
    requires
        start < end,
    ensures
        build_spec(s, start, end).bounds_spec() == range_bounds(s, start, end),
    decreases end - start,
{
    if end <= start + 1 || range_degenerate(s, start, end) {
    } else {
        let mid = start + (end - start) / 2;
        lemma_root_bounds(s, start, mid);
        lemma_root_bounds(s, mid, end);
        lemma_range_bounds_concat(s, start, mid, end);
    }
}

/// The primitive ranges of the tree's leaves, left to right, as
/// (first offset, count) pairs.
pub open spec fn leaf_ranges(t: BVHBuildNode) -> Seq<(u32, u32)>
    decreases t,
{
    match t {
        BVHBuildNode::Leaf { first_obj_offset, n_obj, .. } => seq![(first_obj_offset, n_obj)],
        BVHBuildNode::Interior { left, right, .. } => leaf_ranges(*left) + leaf_ranges(*right),
    }
}

/// The ranges `rs` tile `start..end` without gap or overlap: each is
/// non-empty, the first starts at `start`, each next one starts where the
/// previous ended, and the last ends at `end`.
pub open spec fn ranges_cover(rs: Seq<(u32, u32)>, start: int, end: int) -> bool {
    &&& rs.len() >= 1
    &&& rs[0].0 == start
    &&& rs[rs.len() - 1].0 + rs[rs.len() - 1].1 == end
    &&& forall|i: int| 0 <= i < rs.len() ==> (#[trigger] rs[i]).1 >= 1
    &&& forall|i: int| 1 <= i < rs.len() ==> (#[trigger] rs[i]).0 == rs[i - 1].0 + rs[i - 1].1
}

/// The leaves' primitive ranges tile the whole input range `start..end`:
/// together with [`lemma_ranges_disjoint`] this is the statement that every
/// two leaves cover disjoint ranges and their union is exactly the input.
pub proof fn lemma_leaf_ranges_cover(s: Seq<AABB>, start: int, end: int)
    requires
        0 <= start < end <= u32::MAX,
    ensures
        ranges_cover(leaf_ranges(build_spec(s, start, end)), start, end),
    decreases end - start,
{
    if end <= start + 1 || range_degenerate(s, start, end) {
    } else {
        let mid = start + (end - start) / 2;
        lemma_leaf_ranges_cover(s, start, mid);
        lemma_leaf_ranges_cover(s, mid, end);
        let ls = leaf_ranges(build_spec(s, start, mid));
        let rs = leaf_ranges(build_spec(s, mid, end));
        let all = leaf_ranges(build_spec(s, start, end));
        assert(all == ls + rs);
        assert forall|i: int| 1 <= i < all.len() implies (#[trigger] all[i]).0 == all[i - 1].0
            + all[i - 1].1 by {
            if i < ls.len() {
                assert(all[i] == ls[i] && all[i - 1] == ls[i - 1]);
            } else if i == ls.len() {
                assert(all[i] == rs[0] && all[i - 1] == ls[ls.len() - 1]);
            } else {
                assert(all[i] == rs[i - ls.len()] && all[i - 1] == rs[i - ls.len() - 1]);
            }
        }
    }
}

/// In a chain of ranges tiling an interval, every earlier range ends no
/// later than any later one begins: all leaf ranges are pairwise disjoint.
pub proof fn lemma_ranges_disjoint(rs: Seq<(u32, u32)>, start: int, end: int)
    requires
        ranges_cover(rs, start, end),
    ensures
        forall|i: int, j: int| 0 <= i < j < rs.len() ==> (#[trigger] rs[i]).0 + rs[i].1 <= (
        #[trigger] rs[j]).0,
{
    assert forall|i: int, j: int| 0 <= i < j < rs.len() implies (#[trigger] rs[i]).0 + rs[i].1 <= (
    #[trigger] rs[j]).0 by {
        lemma_chain_monotone(rs, start, end, i, j);
    }
}

proof fn lemma_chain_monotone(rs: Seq<(u32, u32)>, start: int, end: int, i: int, j: int)
    requires
        ranges_cover(rs, start, end),
        0 <= i < j < rs.len(),
    ensures
        rs[i].0 + rs[i].1 <= rs[j].0,
    decreases j - i,
{
    if j == i + 1 {
    } else {
        lemma_chain_monotone(rs, start, end, i, j - 1);
    }
}

/// Reads the tree back out of its flat layout, starting at the record at
/// index `i`: a record with primitives is a leaf; otherwise the node's left
/// child is the very next record and its right child is the record its
/// `offset` field names. `fuel` bounds the depth of the walk; the subtree's
/// node count is always enough.
pub open spec fn delin(ns: Seq<LinearBVHNode>, i: int, fuel: nat) -> BVHBuildNode
    decreases fuel,
{
    if fuel == 0 || i < 0 || i >= ns.len() {
        BVHBuildNode::Leaf {
            bounds: Bounds { min: Vec3i { x: 0, y: 0, z: 0 }, max: Vec3i { x: 0, y: 0, z: 0 } },
            first_obj_offset: 0,
            n_obj: 0,
        }
    } else if ns[i].n_obj > 0 {
        BVHBuildNode::Leaf {
            bounds: ns[i].bounds,
            first_obj_offset: ns[i].obj_offset,
            n_obj: ns[i].n_obj,
        }
    } else {
        BVHBuildNode::Interior {
            bounds: ns[i].bounds,
            split_axis: ns[i].axis,
            left: Box::new(delin(ns, i + 1, (fuel - 1) as nat)),
            right: Box::new(delin(ns, ns[i].offset as int, (fuel - 1) as nat)),
        }
    }
}

/// Build trees are well formed: every leaf covers at least one primitive.
pub proof fn lemma_build_wf(s: Seq<AABB>, start: int, end: int)
    requires
        0 <= start < end <= u32::MAX,
    ensures
        build_spec(s, start, end).wf(),
    decreases end - start,
{
    if end <= start + 1 || range_degenerate(s, start, end) {
    } else {
        let mid = start + (end - start) / 2;
        lemma_build_wf(s, start, mid);
        lemma_build_wf(s, mid, end);
    }
}

proof fn lemma_delin_at(t: BVHBuildNode, ns: Seq<LinearBVHNode>, i: int, fuel: nat)
    requires
        t.wf(),
        0 <= i,
        i + t.size() <= ns.len(),
        ns.len() <= u32::MAX,
        ns.subrange(i, i + t.size() as int) == lin_spec(t, i),
        fuel >= t.size(),
    ensures
        delin(ns, i, fuel) == t,
    decreases t,
{
    lemma_lin_len(t, i);
    match t {
        BVHBuildNode::Leaf { bounds, first_obj_offset, n_obj } => {
            assert(ns[i] == ns.subrange(i, i + 1)[0]);
        },
        BVHBuildNode::Interior { bounds, split_axis, left, right } => {
            lemma_size_pos(*left);
            lemma_size_pos(*right);
            let sl = left.size() as int;
            let sr = right.size() as int;
            lemma_lin_len(*left, i + 1);
            lemma_lin_len(*right, i + 1 + sl);
            let ls = lin_spec(*left, i + 1);
            let rs = lin_spec(*right, i + 1 + sl);
            let whole = ns.subrange(i, i + t.size() as int);
            assert(ns[i] == whole[0]);
            assert(ns.subrange(i + 1, i + 1 + sl) =~= ls) by {
                assert forall|k: int| 0 <= k < sl implies ns.subrange(i + 1, i + 1 + sl)[k]
                    == ls[k] by {
                    assert(whole[1 + k] == ls[k]);
                    assert(ns.subrange(i + 1, i + 1 + sl)[k] == ns[i + 1 + k]);
                }
            }
            assert(ns.subrange(i + 1 + sl, i + 1 + sl + sr) =~= rs) by {
                assert forall|k: int| 0 <= k < sr implies ns.subrange(i + 1 + sl, i + 1 + sl + sr)[k]
                    == rs[k] by {
                    assert(whole[1 + sl + k] == rs[k]);
                    assert(ns.subrange(i + 1 + sl, i + 1 + sl + sr)[k] == ns[i + 1 + sl + k]);
                }
            }
            lemma_delin_at(*left, ns, i + 1, (fuel - 1) as nat);
            lemma_delin_at(*right, ns, i + 1 + sl, (fuel - 1) as nat);
            assert(ns[i].offset as int == i + 1 + sl);
            assert(ns[i].n_obj == 0);
        },
    }
}

/// Round trip: walking the flat layout by its stored offsets, left child at
/// the next index and right child at the `offset` field, rebuilds exactly
/// the tree that was linearized.
pub proof fn lemma_round_trip(t: BVHBuildNode)
    requires
        t.wf(),
        t.size() <= u32::MAX,
    ensures
        delin(lin_spec(t, 0), 0, t.size()) == t,
{
    lemma_lin_len(t, 0);
    assert(lin_spec(t, 0).subrange(0, t.size() as int) =~= lin_spec(t, 0));
    lemma_delin_at(t, lin_spec(t, 0), 0, t.size());
}

/// The round trip applied to the builder's own output: for every input
/// range, reading the flat layout back by its offsets yields the built tree.
pub proof fn lemma_build_round_trip(s: Seq<AABB>, start: int, end: int)
    requires
        0 <= start < end <= u32::MAX,
        2 * (end - start) - 1 <= u32::MAX,
    ensures
        delin(
            lin_spec(build_spec(s, start, end), 0),
            0,
            build_spec(s, start, end).size(),
        ) == build_spec(s, start, end),
{
    lemma_build_wf(s, start, end);
    lemma_size_bounds(s, start, end);
    lemma_round_trip(build_spec(s, start, end));
}

/// The number of nodes on the longest root-to-leaf path.
pub open spec fn height(t: BVHBuildNode) -> nat
    decreases t,
{
    match t {
        BVHBuildNode::Leaf { .. } => 1,
        BVHBuildNode::Interior { left, right, .. } => 1 + if height(*left) >= height(*right) {
            height(*left)
        } else {
            height(*right)
        },
    }
}

/// An upper bound for the height of a tree over `n` primitives: one more
/// than the bound for the larger half. It grows logarithmically in `n`.
pub open spec fn height_bound(n: int) -> nat
    decreases n,
{
    if n <= 1 {
        1
    } else {
        1 + height_bound(n - n / 2)
    }
}

proof fn lemma_height_bound_monotonic(m: int, n: int)
    requires
        m <= n,
    ensures
        height_bound(m) <= height_bound(n),
    decreases n,
{
    if n <= 1 || m <= 0 {
    } else if m == n {
    } else {
        // The larger halves stay ordered, so the bounds do too.
        lemma_height_bound_monotonic(m - m / 2, n - n / 2);
    }
}

/// Splitting at the index midpoint keeps the tree balanced whatever the
/// geometry: its height never passes [`height_bound`], which is logarithmic
/// in the primitive count. The recursion therefore needs no defensive depth
/// ceiling even for adversarial input.
pub proof fn lemma_height_logarithmic(s: Seq<AABB>, start: int, end: int)
    requires
        start < end,
    ensures
        height(build_spec(s, start, end)) <= height_bound(end - start),
    decreases end - start,
{
    if end <= start + 1 || range_degenerate(s, start, end) {
    } else {
        let n = end - start;
        let mid = start + n / 2;
        lemma_height_logarithmic(s, start, mid);
        lemma_height_logarithmic(s, mid, end);
        // Both halves are at most the larger one, n - n/2.
        lemma_height_bound_monotonic(mid - start, n - n / 2);
    }
}

/// Every subtree holds at least one node.
pub proof fn lemma_size_pos(t: BVHBuildNode)
    ensures
        t.size() >= 1,
    decreases t,
{
    match t {
        BVHBuildNode::Leaf { .. } => {},
        BVHBuildNode::Interior { left, right, .. } => {
            lemma_size_pos(*left);
            lemma_size_pos(*right);
        },
    }
}

} // verus!
