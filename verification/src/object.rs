//! Scene object descriptors.
//!
//! Primitives live in flat, append-only arrays, one per kind (spheres, mesh
//! faces). An [`Object`] names a contiguous sub-range of one of those arrays
//! by kind tag, count and offset; an [`ObjectList`] grows the descriptors and
//! keeps the offsets consistent: each added object starts where the previous
//! one ended, so ranges of successive objects never overlap.
//!
//! A mesh face is reduced here to what the builder reads of it, its bounding
//! box; the presentation layer keeps the full vertex data on its side.

use vstd::prelude::*;

use crate::aabb::{Bounds, Vec3i};

verus! {

broadcast use vstd::std_specs::hash::group_hash_axioms;

/// Which flat primitive array a descriptor points into.
#[derive(Clone, PartialEq, Eq, Structural, Debug)]
pub enum ObjectType {
    Sphere,
    Mesh,
}

impl ObjectType {
    /// The tag's wire value: 0 for spheres, 1 for meshes.
    pub open spec fn as_u32_spec(self) -> u32 {
        match self {
            ObjectType::Sphere => 0,
            ObjectType::Mesh => 1,
        }
    }

    pub fn as_u32(&self) -> (v: u32)
        ensures
            v == self.as_u32_spec(),
    {
        match self {
            ObjectType::Sphere => 0,
            ObjectType::Mesh => 1,
        }
    }

    pub fn from_u32(v: u32) -> (t: ObjectType)
        requires
            v <= 1,
        ensures
            t.as_u32_spec() == v,
    {
        if v == 0 {
            ObjectType::Sphere
        } else {
            ObjectType::Mesh
        }
    }
}

/// A descriptor resolving to `count` primitives of kind `obj_type` starting
/// at `offset` in the flat array, under the scene-wide id `id`.
#[derive(Clone, Copy, PartialEq, Eq, Structural, Debug)]
pub struct Object {
    pub id: u32,
    pub obj_type: u32,
    pub count: u32,
    pub offset: u32,
}

impl Object {
    /// A descriptor with `count` defaulting to 1 and `offset` to 0 when not
    /// given.
    pub fn new(id: u32, obj_type: ObjectType, count: Option<usize>, offset: Option<u32>) -> (o: Object)
        requires
            count matches Some(c) ==> c <= u32::MAX,
        ensures
            o.id == id,
            o.obj_type == obj_type.as_u32_spec(),
            o.count == match count {
                Some(c) => c as u32,
                None => 1u32,
            },
            o.offset == match offset {
                Some(v) => v,
                None => 0u32,
            },
    {
        Object {
            id,
            obj_type: obj_type.as_u32(),
            count: match count {
                Some(c) => c as u32,
                None => 1,
            },
            offset: offset.unwrap_or(0),
        }
    }
}

/// A light source, named by the id and kind of the emitting object.
#[derive(Clone, Copy, PartialEq, Eq, Structural, Debug)]
pub struct Light {
    pub id: u32,
    pub light_type: u32,
}

impl Light {
    pub fn new(id: u32, light_type: ObjectType) -> (l: Light)
        ensures
            l.id == id,
            l.light_type == light_type.as_u32_spec(),
    {
        Light { id, light_type: light_type.as_u32() }
    }

    /// The sentinel for "no light": an id no object carries.
    pub fn empty() -> (l: Light)
        ensures
            l.id == 0xFFFF_FFFF,
            l.light_type == 0,
    {
        Light { id: 0xFFFF_FFFF, light_type: 0 }
    }
}

/// The total primitive count of a run of descriptors.
pub open spec fn count_sum(s: Seq<Object>) -> int
    decreases s.len(),
{
    if s.len() == 0 {
        0
    } else {
        count_sum(s.drop_last()) + s.last().count
    }
}

/// The growing scene description: descriptors, the flat array of mesh-face
/// bounds, and for each mesh object the sub-range of that array it owns.
#[derive(Clone, Debug)]
pub struct ObjectList {
    pub objects: Vec<Object>,
    pub meshes: Vec<Bounds>,
    pub object_hashmap: std::collections::HashMap<u32, (u32, u32)>,
    pub counter: u32,
    pub offset_counter: u32,
}

impl ObjectList {
    /// The bookkeeping counters agree with the descriptors: one count of
    /// added objects, and the running total of their primitive counts.
    pub open spec fn wf(self) -> bool {
        &&& self.counter == self.objects@.len()
        &&& self.offset_counter == count_sum(self.objects@)
    }

    pub fn new() -> (l: ObjectList)
        ensures
            l.objects@ == Seq::<Object>::empty(),
            l.meshes@ == Seq::<Bounds>::empty(),
            l.object_hashmap@ == Map::<u32, (u32, u32)>::empty(),
            l.counter == 0,
            l.offset_counter == 0,
            l.wf(),
    {
        ObjectList {
            objects: Vec::new(),
            counter: 0,
            offset_counter: 0,
            meshes: Vec::new(),
            object_hashmap: std::collections::HashMap::new(),
        }
    }

    /// Like [`ObjectList::new`], but with one zero-sized placeholder face, so
    /// that a scene without meshes still uploads a non-empty face array.
    pub fn new_empty_mesh() -> (l: ObjectList)
        ensures
            l.objects@ == Seq::<Object>::empty(),
            l.meshes@ == seq![
                Bounds { min: Vec3i { x: 0, y: 0, z: 0 }, max: Vec3i { x: 0, y: 0, z: 0 } },
            ],
            l.object_hashmap@ == Map::<u32, (u32, u32)>::empty(),
            l.counter == 0,
            l.offset_counter == 0,
            l.wf(),
    {
        let mut meshes = Vec::new();
        meshes.push(Bounds::empty());
        proof {
            assert(meshes@ =~= seq![
                Bounds { min: Vec3i { x: 0, y: 0, z: 0 }, max: Vec3i { x: 0, y: 0, z: 0 } },
            ]);
        }
        ObjectList {
            objects: Vec::new(),
            counter: 0,
            offset_counter: 0,
            meshes,
            object_hashmap: std::collections::HashMap::new(),
        }
    }

    /// Appends a descriptor, advancing the counters; a mesh object also
    /// appends its face bounds and records the sub-range they landed in.
    pub fn add(&mut self, obj: Object, meshes: Option<Vec<Bounds>>)
        requires
            old(self).wf(),
            old(self).counter < u32::MAX,
            old(self).offset_counter + obj.count <= u32::MAX,
        ensures
            final(self).wf(),
            final(self).objects@ == old(self).objects@.push(obj),
            final(self).counter == old(self).counter + 1,
            final(self).offset_counter == old(self).offset_counter + obj.count,
            match meshes {
                None => {
                    &&& final(self).meshes@ == old(self).meshes@
                    &&& final(self).object_hashmap@ == old(self).object_hashmap@
                },
                Some(ms) => {
                    &&& final(self).meshes@ == old(self).meshes@ + ms@
                    &&& final(self).object_hashmap@ == old(self).object_hashmap@.insert(
                        obj.id,
                        ((old(self).offset_counter) as u32, (old(self).offset_counter + obj.count) as u32),
                    )
                },
            },
    {
        self.objects.push(obj);
        self.counter = self.counter + 1;
        self.offset_counter = self.offset_counter + obj.count;
        if let Some(mut mesh) = meshes {
            self.meshes.append(&mut mesh);
            self.object_hashmap.insert(obj.id, (self.offset_counter - obj.count, self.offset_counter));
        }
        proof {
            assert(count_sum(self.objects@) == count_sum(old(self).objects@) + obj.count) by {
                assert(self.objects@.drop_last() =~= old(self).objects@);
            }
        }
    }

    /// Adds one sphere object covering `count` spheres (1 when not given)
    /// starting at the current running offset.
    pub fn add_sphere(&mut self, count: Option<usize>)
        requires
            old(self).wf(),
            old(self).counter < u32::MAX,
            count matches Some(c) ==> c <= u32::MAX,
            old(self).offset_counter + (match count {
                Some(c) => c as u32,
                None => 1u32,
            }) <= u32::MAX,
        ensures
            final(self).wf(),
            final(self).objects@ == old(self).objects@.push(Object {
                id: old(self).counter,
                obj_type: 0,
                count: match count {
                    Some(c) => c as u32,
                    None => 1u32,
                },
                offset: old(self).offset_counter,
            }),
            final(self).counter == old(self).counter + 1,
            final(self).offset_counter == old(self).offset_counter + (match count {
                Some(c) => c as u32,
                None => 1u32,
            }),
            final(self).meshes@ == old(self).meshes@,
            final(self).object_hashmap@ == old(self).object_hashmap@,
    {
        let counter = self.counter;
        let offset_counter = self.offset_counter;
        self.add(Object::new(counter, ObjectType::Sphere, count, Some(offset_counter)), None);
    }

    /// Adds one mesh object covering `count` faces, together with the bounds
    /// of those faces.
    pub fn add_mesh(&mut self, count: Option<usize>, meshes: Vec<Bounds>)
        requires
            old(self).wf(),
            old(self).counter < u32::MAX,
            count matches Some(c) ==> c <= u32::MAX,
            old(self).offset_counter + (match count {
                Some(c) => c as u32,
                None => 1u32,
            }) <= u32::MAX,
        ensures
            final(self).wf(),
            final(self).objects@ == old(self).objects@.push(Object {
                id: old(self).counter,
                obj_type: 1,
                count: match count {
                    Some(c) => c as u32,
                    None => 1u32,
                },
                offset: old(self).offset_counter,
            }),
            final(self).counter == old(self).counter + 1,
            final(self).offset_counter == old(self).offset_counter + (match count {
                Some(c) => c as u32,
                None => 1u32,
            }),
            final(self).meshes@ == old(self).meshes@ + meshes@,
            final(self).object_hashmap@ == old(self).object_hashmap@.insert(
                old(self).counter,
                (old(self).offset_counter, (old(self).offset_counter + (match count {
                    Some(c) => c as u32,
                    None => 1u32,
                })) as u32),
            ),
    {
        let counter = self.counter;
        let offset_counter = self.offset_counter;
        self.add(Object::new(counter, ObjectType::Mesh, count, Some(offset_counter)), Some(meshes));
    }
}

} // verus!
