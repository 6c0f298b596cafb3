use ray_core::aabb::{Bounds, Vec3i, AABB};
use ray_core::bvh::{build, build_aabbs, get_bvh, BvhError, LinearBVHNode, BVH};
use ray_core::object::{Object, ObjectType};

fn b(min: (i32, i32, i32), max: (i32, i32, i32)) -> Bounds {
    Bounds::new(
        Vec3i::new(min.0, min.1, min.2),
        Vec3i::new(max.0, max.1, max.2),
    )
}

fn prim(min: (i32, i32, i32), max: (i32, i32, i32), index: u32) -> AABB {
    AABB {
        bounds: b(min, max),
        type_tag: 0,
        prim_index: index,
    }
}

/// Walks the flat layout and checks the structural invariants: an interior
/// record's left child is the next record, its right child is the record its
/// offset field names, and the subtree occupies exactly the records between.
/// Returns the number of records the subtree at `i` occupies.
fn check_layout(nodes: &[LinearBVHNode], i: usize) -> usize {
    let n = nodes[i];
    if n.n_obj > 0 {
        1
    } else {
        let left_size = check_layout(nodes, i + 1);
        assert_eq!(n.offset as usize, i + 1 + left_size, "right child index");
        let right_size = check_layout(nodes, n.offset as usize);
        1 + left_size + right_size
    }
}

fn leaves_of(nodes: &[LinearBVHNode]) -> Vec<(u32, u32)> {
    nodes
        .iter()
        .filter(|n| n.n_obj > 0)
        .map(|n| (n.obj_offset, n.n_obj))
        .collect()
}

#[test]
fn empty_scene_is_refused() {
    let aabbs: Vec<AABB> = Vec::new();
    assert_eq!(build(&aabbs), Err(BvhError::EmptyScene));
}

#[test]
fn single_primitive_yields_one_leaf() {
    let aabbs = vec![prim((-1, -2, -3), (4, 5, 6), 0)];
    let nodes = build(&aabbs).unwrap();
    assert_eq!(nodes.len(), 1);
    assert_eq!(nodes[0].bounds, b((-1, -2, -3), (4, 5, 6)));
    assert_eq!(nodes[0].n_obj, 1);
    assert_eq!(nodes[0].obj_offset, 0);
    assert_eq!(nodes[0].offset, 0);
}

#[test]
fn two_disjoint_primitives_yield_three_nodes() {
    let aabbs = vec![
        prim((0, 0, 0), (1, 1, 1), 0),
        prim((10, 0, 0), (11, 1, 1), 1),
    ];
    let nodes = build(&aabbs).unwrap();
    assert_eq!(nodes.len(), 3);
    // The root is interior, covers the union, and splits along x.
    assert_eq!(nodes[0].n_obj, 0);
    assert_eq!(nodes[0].bounds, b((0, 0, 0), (11, 1, 1)));
    assert_eq!(nodes[0].axis, 0);
    // Left child right after the root, right child at the stored offset.
    assert_eq!(nodes[0].offset, 2);
    assert_eq!(nodes[1].bounds, b((0, 0, 0), (1, 1, 1)));
    assert_eq!(nodes[1].n_obj, 1);
    assert_eq!(nodes[1].obj_offset, 0);
    assert_eq!(nodes[2].bounds, b((10, 0, 0), (11, 1, 1)));
    assert_eq!(nodes[2].n_obj, 1);
    assert_eq!(nodes[2].obj_offset, 1);
}

#[test]
fn four_primitives_yield_seven_nodes() {
    // Distinct centroids everywhere, so no degenerate fallback triggers:
    // 2k - 1 nodes for k primitives.
    let aabbs = vec![
        prim((0, 0, 0), (1, 1, 1), 0),
        prim((4, 0, 0), (5, 1, 1), 1),
        prim((8, 0, 0), (9, 1, 1), 2),
        prim((12, 0, 0), (13, 1, 1), 3),
    ];
    let nodes = build(&aabbs).unwrap();
    assert_eq!(nodes.len(), 7);
    assert_eq!(check_layout(&nodes, 0), 7);
}

#[test]
fn root_bounds_is_union_of_all_inputs() {
    let aabbs = vec![
        prim((-5, 0, 2), (1, 1, 3), 0),
        prim((4, -7, 0), (5, 1, 1), 1),
        prim((0, 0, -9), (2, 12, 1), 2),
    ];
    let nodes = build(&aabbs).unwrap();
    assert_eq!(nodes[0].bounds, b((-5, -7, -9), (5, 12, 3)));
}

#[test]
fn leaf_ranges_partition_the_input() {
    let aabbs: Vec<AABB> = (0..9)
        .map(|i| prim((3 * i, 0, 0), (3 * i + 1, 1, 1), i as u32))
        .collect();
    let nodes = build(&aabbs).unwrap();
    let mut leaves = leaves_of(&nodes);
    leaves.sort();
    // Pairwise disjoint and together exactly 0..9.
    let mut next = 0u32;
    for (first, count) in leaves {
        assert_eq!(first, next, "gap or overlap at {first}");
        assert!(count >= 1);
        next = first + count;
    }
    assert_eq!(next, 9);
}

#[test]
fn linearization_matches_depth_first_order() {
    let aabbs: Vec<AABB> = (0..5)
        .map(|i| prim((2 * i, -i, 0), (2 * i + 1, -i + 1, 1), i as u32))
        .collect();
    let nodes = build(&aabbs).unwrap();
    assert_eq!(check_layout(&nodes, 0), nodes.len());
    // Leaves appear in primitive order when read depth first, left first.
    let leaves = leaves_of(&nodes);
    let firsts: Vec<u32> = leaves.iter().map(|l| l.0).collect();
    let mut sorted = firsts.clone();
    sorted.sort();
    assert_eq!(firsts, sorted);
}

#[test]
fn coincident_centroids_fall_back_to_one_leaf() {
    // Identical boxes: the centroids coincide on every axis, so splitting
    // would loop forever; the builder makes a single leaf instead.
    let aabbs = vec![
        prim((0, 0, 0), (2, 2, 2), 0),
        prim((0, 0, 0), (2, 2, 2), 1),
        prim((0, 0, 0), (2, 2, 2), 2),
    ];
    let nodes = build(&aabbs).unwrap();
    assert_eq!(nodes.len(), 1);
    assert_eq!(nodes[0].n_obj, 3);
    assert_eq!(nodes[0].obj_offset, 0);
    assert_eq!(nodes[0].bounds, b((0, 0, 0), (2, 2, 2)));
}

#[test]
fn split_axis_picks_widest_centroid_spread() {
    // Centroids spread by 20 along y, 2 along x, 0 along z.
    let aabbs = vec![
        prim((0, 0, 0), (1, 1, 1), 0),
        prim((2, 20, 0), (3, 21, 1), 1),
    ];
    let nodes = build(&aabbs).unwrap();
    assert_eq!(nodes[0].axis, 1);
}

#[test]
fn maximum_extent_tie_breaks_toward_x_then_y() {
    let cube = b((0, 0, 0), (5, 5, 5));
    assert_eq!(cube.maximum_extent(), 0);
    let yz = b((0, 0, 0), (1, 5, 5));
    assert_eq!(yz.maximum_extent(), 1);
    let z = b((0, 0, 0), (1, 2, 5));
    assert_eq!(z.maximum_extent(), 2);
}

#[test]
fn union_takes_componentwise_extremes() {
    let u = Bounds::union(b((0, -5, 2), (3, 1, 8)), b((-2, 0, 4), (1, 9, 5)));
    assert_eq!(u, b((-2, -5, 2), (3, 9, 8)));
}

#[test]
fn empty_bounds_is_the_zero_box() {
    assert_eq!(Bounds::empty(), b((0, 0, 0), (0, 0, 0)));
}

#[test]
fn build_aabbs_resolves_ids_through_the_tag() {
    let objects = vec![
        Object::new(0, ObjectType::Sphere, None, Some(0)),
        Object::new(1, ObjectType::Mesh, Some(2), Some(1)),
        Object::new(1, ObjectType::Sphere, None, Some(3)),
    ];
    let sphere_bounds = vec![b((0, 0, 0), (1, 1, 1)), b((5, 5, 5), (6, 6, 6))];
    let mesh_bounds = vec![b((-3, 0, 0), (-2, 1, 1)), b((7, 7, 7), (8, 8, 8))];
    let aabbs = build_aabbs(&objects, &sphere_bounds, &mesh_bounds);
    assert_eq!(aabbs.len(), 3);
    assert_eq!(aabbs[0].bounds, sphere_bounds[0]);
    assert_eq!(aabbs[0].type_tag, 0);
    assert_eq!(aabbs[0].prim_index, 0);
    assert_eq!(aabbs[1].bounds, mesh_bounds[1]);
    assert_eq!(aabbs[1].type_tag, 1);
    assert_eq!(aabbs[2].bounds, sphere_bounds[1]);
}

#[test]
fn get_bvh_runs_the_whole_pipeline() {
    let objects = vec![
        Object::new(0, ObjectType::Sphere, None, Some(0)),
        Object::new(1, ObjectType::Sphere, None, Some(1)),
    ];
    let sphere_bounds = vec![b((0, 0, 0), (1, 1, 1)), b((10, 0, 0), (11, 1, 1))];
    let mesh_bounds: Vec<Bounds> = Vec::new();
    let nodes = get_bvh(&objects, &sphere_bounds, &mesh_bounds).unwrap();
    assert_eq!(nodes.len(), 3);
    assert_eq!(nodes[0].bounds, b((0, 0, 0), (11, 1, 1)));

    let none: Vec<Object> = Vec::new();
    assert_eq!(
        get_bvh(&none, &sphere_bounds, &mesh_bounds),
        Err(BvhError::EmptyScene)
    );
}

#[test]
fn bvh_struct_counts_its_nodes() {
    let aabbs = vec![
        prim((0, 0, 0), (1, 1, 1), 0),
        prim((10, 0, 0), (11, 1, 1), 1),
    ];
    let bvh = BVH::build(&aabbs).unwrap();
    assert_eq!(bvh.total_nodes, 3);
    assert_eq!(bvh.root.bounds(), b((0, 0, 0), (11, 1, 1)));
}
