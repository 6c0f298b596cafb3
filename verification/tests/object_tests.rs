use ray_core::aabb::{Bounds, Vec3i};
use ray_core::object::{Light, Object, ObjectList, ObjectType};

fn b(min: (i32, i32, i32), max: (i32, i32, i32)) -> Bounds {
    Bounds::new(
        Vec3i::new(min.0, min.1, min.2),
        Vec3i::new(max.0, max.1, max.2),
    )
}

#[test]
fn object_new_fills_defaults() {
    let o = Object::new(7, ObjectType::Mesh, None, None);
    assert_eq!(o.id, 7);
    assert_eq!(o.obj_type, 1);
    assert_eq!(o.count, 1);
    assert_eq!(o.offset, 0);

    let o = Object::new(2, ObjectType::Sphere, Some(12), Some(34));
    assert_eq!(o.obj_type, 0);
    assert_eq!(o.count, 12);
    assert_eq!(o.offset, 34);
}

#[test]
fn light_new_and_empty() {
    let l = Light::new(3, ObjectType::Sphere);
    assert_eq!(l.id, 3);
    assert_eq!(l.light_type, 0);

    let e = Light::empty();
    assert_eq!(e.id, 0xFFFF_FFFF);
    assert_eq!(e.light_type, 0);
}

#[test]
fn object_list_starts_empty_or_with_placeholder_face() {
    let l = ObjectList::new();
    assert!(l.objects.is_empty());
    assert!(l.meshes.is_empty());
    assert_eq!(l.counter, 0);
    assert_eq!(l.offset_counter, 0);

    let l = ObjectList::new_empty_mesh();
    assert!(l.objects.is_empty());
    assert_eq!(l.meshes, vec![b((0, 0, 0), (0, 0, 0))]);
}

#[test]
fn added_objects_get_successive_ranges() {
    let mut l = ObjectList::new();
    l.add_sphere(Some(3));
    l.add_sphere(None);
    l.add_mesh(Some(2), vec![b((0, 0, 0), (1, 1, 1)), b((1, 0, 0), (2, 1, 1))]);

    assert_eq!(l.counter, 3);
    assert_eq!(l.offset_counter, 6);
    assert_eq!(l.objects.len(), 3);

    // Each object's range begins where the previous ended: no overlap.
    assert_eq!((l.objects[0].offset, l.objects[0].count), (0, 3));
    assert_eq!((l.objects[1].offset, l.objects[1].count), (3, 1));
    assert_eq!((l.objects[2].offset, l.objects[2].count), (4, 2));
    assert_eq!(l.objects[2].obj_type, 1);

    // The mesh object's face range is recorded under its id.
    assert_eq!(l.object_hashmap.get(&2), Some(&(4, 6)));
    assert_eq!(l.meshes.len(), 2);
}

#[test]
fn object_type_round_trips_through_its_tag() {
    assert_eq!(ObjectType::from_u32(0), ObjectType::Sphere);
    assert_eq!(ObjectType::from_u32(1), ObjectType::Mesh);
    assert_eq!(ObjectType::Sphere.as_u32(), 0);
    assert_eq!(ObjectType::Mesh.as_u32(), 1);
}
